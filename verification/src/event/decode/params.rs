//! Parameter lists of control sequences.
//!
//! Parameters are separated by `;`, sub-parameters by `:`. A field that is not a
//! number has no value.

use crate::bytes::{field_value, fields_view, lemma_split_nonempty, read_number, split, split_fields};
use vstd::prelude::*;

verus! {

/// The values of the sub-parameters of one parameter.
pub open spec fn sub_params(field: Seq<u8>) -> Seq<Option<u32>> {
    Seq::new(split(field, 0x3a).len(), |i: int| field_value(split(field, 0x3a)[i]))
}

/// The parameters of a parameter string; an empty string has none.
pub open spec fn params_of(raw: Seq<u8>) -> Seq<Seq<Option<u32>>> {
    if raw.len() == 0 {
        Seq::empty()
    } else {
        Seq::new(split(raw, 0x3b).len(), |i: int| sub_params(split(raw, 0x3b)[i]))
    }
}

/// The value of parameter `i`, or `default` where it is absent or empty.
pub open spec fn param_or(params: Seq<Seq<Option<u32>>>, i: int, default: u32) -> u32 {
    if 0 <= i < params.len() && params[i][0] is Some {
        params[i][0]->0
    } else {
        default
    }
}

/// The value of sub-parameter `j` of parameter `i`.
pub open spec fn sub_param(params: Seq<Seq<Option<u32>>>, i: int, j: int) -> Option<u32> {
    if 0 <= i < params.len() && 0 <= j < params[i].len() {
        params[i][j]
    } else {
        None
    }
}

/// The first value of every parameter from number `from` on.
pub open spec fn first_values(params: Seq<Seq<Option<u32>>>, from: int) -> Seq<Option<u32>> {
    Seq::new((params.len() - from) as nat, |i: int| params[i + from][0])
}

/// A parsed parameter list.
pub struct Params {
    groups: Vec<Vec<Option<u32>>>,
}

impl View for Params {
    type V = Seq<Seq<Option<u32>>>;

    closed spec fn view(&self) -> Seq<Seq<Option<u32>>> {
        Seq::new(self.groups@.len(), |i: int| self.groups@[i]@)
    }
}

/// Read the sub-parameters of one parameter.
fn read_sub_params(field: &[u8]) -> (r: Vec<Option<u32>>)
    ensures
        r@ == sub_params(field@),
{
    let fields = split_fields(field, 0x3a);
    let mut values: Vec<Option<u32>> = Vec::new();
    let mut i: usize = 0;
    while i < fields.len()
        invariant
            0 <= i <= fields@.len(),
            fields_view(fields@) == split(field@, 0x3a),
            values@ =~= sub_params(field@).subrange(0, i as int),
        decreases fields@.len() - i,
    {
        assert(fields_view(fields@)[i as int] == fields@[i as int]@);
        values.push(read_number(fields[i].as_slice()));
        i += 1;
    }
    assert(values@ =~= sub_params(field@));
    values
}

impl Params {
    /// Every parameter has at least one sub-parameter.
    pub closed spec fn well_formed(&self) -> bool {
        forall|i: int| 0 <= i < self.groups@.len() ==> (#[trigger] self.groups@[i])@.len() > 0
    }

    /// Parse a parameter string.
    pub fn from_raw(raw: &[u8]) -> (r: Params)
        ensures
            r@ == params_of(raw@),
            r.well_formed(),
    {
        let mut groups: Vec<Vec<Option<u32>>> = Vec::new();
        if raw.len() == 0 {
            let r = Params { groups };
            assert(r@ =~= params_of(raw@));
            return r;
        }
        let fields = split_fields(raw, 0x3b);
        let mut i: usize = 0;
        while i < fields.len()
            invariant
                0 <= i <= fields@.len(),
                raw@.len() > 0,
                fields_view(fields@) == split(raw@, 0x3b),
                groups@.len() == i,
                forall|k: int| 0 <= k < i ==> (#[trigger] groups@[k])@ == params_of(raw@)[k],
                forall|k: int| 0 <= k < i ==> (#[trigger] groups@[k])@.len() > 0,
            decreases fields@.len() - i,
        {
            assert(fields_view(fields@)[i as int] == fields@[i as int]@);
            proof {
                lemma_split_nonempty(fields@[i as int]@, 0x3a);
            }
            groups.push(read_sub_params(fields[i].as_slice()));
            i += 1;
        }
        let r = Params { groups };
        assert(r@ =~= params_of(raw@));
        r
    }

    /// How many parameters there are.
    pub fn len(&self) -> (r: usize)
        ensures
            r == self@.len(),
    {
        self.groups.len()
    }

    /// The value of parameter `i`, or `default` where it is absent or empty.
    pub fn get_or(&self, i: usize, default: u32) -> (r: u32)
        requires
            self.well_formed(),
        ensures
            r == param_or(self@, i as int, default),
    {
        if i < self.groups.len() {
            if let Some(v) = self.groups[i][0] {
                return v;
            }
        }
        default
    }

    /// The value of sub-parameter `j` of parameter `i`.
    pub fn sub(&self, i: usize, j: usize) -> (r: Option<u32>)
        ensures
            r == sub_param(self@, i as int, j as int),
    {
        if i < self.groups.len() && j < self.groups[i].len() {
            self.groups[i][j]
        } else {
            None
        }
    }

    /// How many sub-parameters parameter `i` has.
    pub fn sub_len(&self, i: usize) -> (r: usize)
        requires
            i < self@.len(),
        ensures
            r == self@[i as int].len(),
    {
        self.groups[i].len()
    }

    /// The first value of every parameter from number `from` on.
    pub fn firsts(&self, from: usize) -> (r: Vec<Option<u32>>)
        requires
            self.well_formed(),
            from <= self@.len(),
        ensures
            r@ == first_values(self@, from as int),
    {
        let mut values: Vec<Option<u32>> = Vec::new();
        let mut i: usize = from;
        while i < self.groups.len()
            invariant
                from <= i <= self.groups@.len(),
                self@.len() == self.groups@.len(),
                self.well_formed(),
                values@ =~= first_values(self@, from as int).subrange(0, i - from),
            decreases self.groups@.len() - i,
        {
            values.push(self.groups[i][0]);
            i += 1;
        }
        assert(values@ =~= first_values(self@, from as int));
        values
    }
}

} // verus!
