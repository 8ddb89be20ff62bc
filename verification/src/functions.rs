//! The function environment: a name-to-block mapping with last-write-wins
//! replacement.  Its view is a map from name characters to abstract values.
use vstd::prelude::*;
use crate::types::{AbsValue, Value};

verus! {

pub struct Functions {
    entries: Vec<(String, Value)>,
}

/// The mapping denoted by an entry list whose earlier entries win.
pub open spec fn fmap_of(s: Seq<(String, Value)>) -> Map<Seq<char>, AbsValue>
    decreases s,
{
    if s.len() == 0 {
        Map::empty()
    } else {
        fmap_of(s.drop_first()).insert(s[0].0@, s[0].1@)
    }
}

pub proof fn lemma_ffmap_of_absent(s: Seq<(String, Value)>, name: Seq<char>)
    requires
        forall|j: int| 0 <= j < s.len() ==> (#[trigger] s[j].0)@ != name,
    ensures
        !fmap_of(s).contains_key(name),
    decreases s,
{
    if s.len() > 0 {
        assert(forall|j: int|
            0 <= j < s.drop_first().len() ==> (#[trigger] s.drop_first()[j].0)@ != name);
        lemma_ffmap_of_absent(s.drop_first(), name);
    }
}

pub proof fn lemma_ffmap_of_first(s: Seq<(String, Value)>, name: Seq<char>, i: int)
    requires
        0 <= i < s.len(),
        forall|j: int| 0 <= j < i ==> (#[trigger] s[j].0)@ != name,
        s[i].0@ == name,
    ensures
        fmap_of(s).contains_key(name),
        fmap_of(s)[name] == s[i].1@,
    decreases s,
{
    if i > 0 {
        assert(forall|j: int|
            0 <= j < i - 1 ==> (#[trigger] s.drop_first()[j].0)@ != name);
        assert(s.drop_first()[i - 1] == s[i]);
        lemma_ffmap_of_first(s.drop_first(), name, i - 1);
        assert(s[0].0@ != name);
    }
}

impl View for Functions {
    type V = Map<Seq<char>, AbsValue>;

    closed spec fn view(&self) -> Map<Seq<char>, AbsValue> {
        fmap_of(self.entries@)
    }
}

impl Functions {
    pub fn new() -> (r: Self)
        ensures
            r@ == Map::<Seq<char>, AbsValue>::empty(),
    {
        Functions { entries: Vec::new() }
    }

    /// Binds `name` to `value`, replacing any earlier binding.
    pub fn set(&mut self, name: &str, value: Value)
        ensures
            final(self)@ == old(self)@.insert(name@, value@),
    {
        let owned = String::from_str(name);
        self.entries.insert(0, (owned, value));
        proof {
            assert(final(self).entries@.drop_first() =~= old(self).entries@);
        }
    }

    /// Looks a name up; the most recent binding wins.
    #[verifier::loop_isolation(false)]
    pub fn get(&self, name: &str) -> (r: Option<&Value>)
        ensures
            match r {
                Option::Some(v) => self@.contains_key(name@) && v@ == self@[name@],
                Option::None => !self@.contains_key(name@),
            },
    {
        let n = self.entries.len();
        let mut i: usize = 0;
        while i < n
            invariant
                0 <= i <= n,
                forall|j: int| 0 <= j < i ==> (#[trigger] self.entries@[j].0)@ != name@,
            decreases n - i,
        {
            let entry = &self.entries[i];
            if crate::text::str_is(entry.0.as_str(), name) {
                proof {
                    lemma_ffmap_of_first(self.entries@, name@, i as int);
                }
                return Option::Some(&self.entries[i].1);
            }
            i = i + 1;
        }
        proof {
            lemma_ffmap_of_absent(self.entries@, name@);
        }
        Option::None
    }
}

} // verus!
