//! Scenario parameters: named integer configuration values consumed by
//! script-type renders.

use vstd::prelude::*;
use vstd::string::*;
use crate::strutil::str_eq;

verus! {

/// One scenario parameter: an identifier bound to an integer value.
pub struct ScenparEntry {
    pub id: String,
    pub value: i32,
}

/// The mathematical value of a `ScenparEntry`.
pub ghost struct ScenparEntryView {
    pub id: Seq<char>,
    pub value: i32,
}

impl View for ScenparEntry {
    type V = ScenparEntryView;

    open spec fn view(&self) -> ScenparEntryView {
        ScenparEntryView { id: self.id@, value: self.value }
    }
}

/// The value bound to `id`, if any: the first entry with that identifier
/// decides.
pub open spec fn value_of(params: Seq<ScenparEntryView>, id: Seq<char>) -> Option<i32>
    decreases params.len(),
{
    if params.len() == 0 {
        None
    } else if params[0].id == id {
        Some(params[0].value)
    } else {
        value_of(params.drop_first(), id)
    }
}

/// The position of the first entry bound to `id`, if any.
pub open spec fn index_of_id(params: Seq<ScenparEntryView>, id: Seq<char>) -> Option<int>
    decreases params.len(),
{
    if params.len() == 0 {
        None
    } else if params[0].id == id {
        Some(0)
    } else {
        match index_of_id(params.drop_first(), id) {
            Some(i) => Some(i + 1),
            None => None,
        }
    }
}

/// The set of scenario parameters loaded from a parameter-definitions
/// entry, plus any values set afterwards.
pub struct Scenpar {
    params: Vec<ScenparEntry>,
}

impl View for Scenpar {
    type V = Seq<ScenparEntryView>;

    closed spec fn view(&self) -> Seq<ScenparEntryView> {
        self.params@.map_values(|e: ScenparEntry| e@)
    }
}

impl Scenpar {
    /// An empty parameter set.
    pub fn new() -> (r: Scenpar)
        ensures
            r@ =~= Seq::<ScenparEntryView>::empty(),
    {
        Scenpar { params: Vec::new() }
    }

    /// Takes over the entries of a parsed parameter-definitions entry, in
    /// order, after whatever the set already holds.
    pub fn load(&mut self, parsed: Vec<ScenparEntry>)
        ensures
            final(self)@ =~= old(self)@ + parsed@.map_values(|e: ScenparEntry| e@),
    {
        let mut parsed = parsed;
        self.params.append(&mut parsed);
    }

    /// The value bound to `id`, or `default_value` when the set does not
    /// hold that identifier.
    pub fn get_value_by_id(&self, id: &str, default_value: i32) -> (r: i32)
        ensures
            r == match value_of(self@, id@) {
                Some(v) => v,
                None => default_value,
            },
    {
        let ghost params = self@;
        proof {
            assert(params.skip(0) =~= params);
        }
        let mut i: usize = 0;
        while i < self.params.len()
            invariant
                params == self@,
                self@ == self.params@.map_values(|e: ScenparEntry| e@),
                i <= self.params@.len(),
                value_of(params, id@) == value_of(params.skip(i as int), id@),
            decreases self.params@.len() - i,
        {
            assert(params.skip(i as int)[0] == params[i as int]);
            if str_eq(self.params[i].id.as_str(), id) {
                return self.params[i].value;
            }
            proof {
                assert(params.skip(i as int).drop_first() =~= params.skip(i + 1));
            }
            i = i + 1;
        }
        proof {
            assert(params.skip(i as int) =~= Seq::<ScenparEntryView>::empty());
        }
        default_value
    }

    /// Binds `id` to `value`: an absent identifier is added at the end, a
    /// present one is overwritten — unless `only_if_larger` is set and the
    /// held value is at least `value`, which leaves the set unchanged.
    pub fn set_value(&mut self, id: &str, value: i32, only_if_larger: bool)
        ensures
            (index_of_id(old(self)@, id@) matches Some(i) ==> final(self)@ == (
            if !only_if_larger || old(self)@[i].value < value {
                old(self)@.update(i, ScenparEntryView { id: old(self)@[i].id, value })
            } else {
                old(self)@
            })),
            index_of_id(old(self)@, id@) is None ==> final(self)@ == old(self)@.push(
                ScenparEntryView { id: id@, value },
            ),
    {
        proof {
            lemma_index_of_id(self@, id@);
            assert(self@.skip(0) =~= self@);
        }
        let ghost params = old(self)@;
        proof {
            assert(params == self@);
        }
        let mut i: usize = 0;
        while i < self.params.len()
            invariant
                params == self@,
                params == old(self)@,
                self@ == self.params@.map_values(|e: ScenparEntry| e@),
                i <= self.params@.len(),
                index_of_id(params, id@) == match index_of_id(params.skip(i as int), id@) {
                    Some(k) => Some(k + i),
                    None => None::<int>,
                },
            decreases self.params@.len() - i,
        {
            assert(params.skip(i as int)[0] == params[i as int]);
            if str_eq(self.params[i].id.as_str(), id) {
                assert(index_of_id(params, id@) == Some(i as int));
                let cur_val = self.params[i].value;
                if !only_if_larger || cur_val < value {
                    let kept_id = self.params[i].id.clone();
                    self.params[i] = ScenparEntry { id: kept_id, value };
                    proof {
                        assert(self@ =~= params.update(
                            i as int,
                            ScenparEntryView { id: params[i as int].id, value },
                        ));
                    }
                }
                return ;
            }
            proof {
                assert(params.skip(i as int).drop_first() =~= params.skip(i + 1));
            }
            i = i + 1;
        }
        proof {
            assert(params.skip(i as int) =~= Seq::<ScenparEntryView>::empty());
        }
        self.params.push(ScenparEntry { id: String::from_str(id), value });
        proof {
            assert(self@ =~= params.push(ScenparEntryView { id: id@, value }));
        }
    }

    /// An owned copy with the same entries.
    pub fn duplicate(&self) -> (r: Scenpar)
        ensures
            r@ =~= self@,
    {
        let mut out: Vec<ScenparEntry> = Vec::new();
        let mut i: usize = 0;
        while i < self.params.len()
            invariant
                self@ == self.params@.map_values(|e: ScenparEntry| e@),
                i <= self.params@.len(),
                out@.map_values(|e: ScenparEntry| e@) =~= self@.subrange(0, i as int),
            decreases self.params@.len() - i,
        {
            out.push(
                ScenparEntry { id: self.params[i].id.clone(), value: self.params[i].value },
            );
            proof {
                assert(self@.subrange(0, i + 1) =~= self@.subrange(0, i as int).push(
                    self@[i as int],
                ));
            }
            i = i + 1;
        }
        proof {
            assert(self@.subrange(0, i as int) =~= self@);
        }
        Scenpar { params: out }
    }
}

/// What `index_of_id` points at: the first entry bound to `id`.
pub proof fn lemma_index_of_id(params: Seq<ScenparEntryView>, id: Seq<char>)
    ensures
        match index_of_id(params, id) {
            Some(i) => 0 <= i < params.len() && params[i].id == id && value_of(params, id) == Some(
                params[i].value,
            ) && forall|j: int| 0 <= j < i ==> params[j].id != id,
            None => value_of(params, id) is None && forall|j: int|
                0 <= j < params.len() ==> params[j].id != id,
        },
    decreases params.len(),
{
    if params.len() > 0 && params[0].id != id {
        lemma_index_of_id(params.drop_first(), id);
        match index_of_id(params.drop_first(), id) {
            Some(i) => {
                assert(params.drop_first()[i] == params[i + 1]);
                assert forall|j: int| 0 <= j < i + 1 implies params[j].id != id by {
                    if j > 0 {
                        assert(params.drop_first()[j - 1] == params[j]);
                    }
                }
            },
            None => {
                assert forall|j: int| 0 <= j < params.len() implies params[j].id != id by {
                    if j > 0 {
                        assert(params.drop_first()[j - 1] == params[j]);
                    }
                }
            },
        }
    }
}

} // verus!
