//! The assignment sinks: one mutable slot per argument spec, addressed by
//! the spec's position in the schema.
//!
//! A flag's slot is an occurrence counter. An option's or positional's slot
//! is an ordered sequence of decoded values: a `multiple` spec appends to
//! it, any other spec overwrites it (so the last occurrence wins, and a
//! pre-seeded default is overwritten by the first occurrence).

use vstd::prelude::*;
use crate::schema::ArgHandlers;
use crate::value::{Value, ValueView};

verus! {

/// Caller-owned storage that the parser fills: one slot per spec, in the
/// schema's declaration order.
#[derive(Debug)]
pub struct Sinks {
    pub flag_counts: Vec<u64>,
    pub option_values: Vec<Vec<Value>>,
    pub positional_values: Vec<Vec<Value>>,
}

/// Mathematical model of [`Sinks`].
pub struct SinksView {
    pub flag_counts: Seq<u64>,
    pub option_values: Seq<Seq<ValueView>>,
    pub positional_values: Seq<Seq<ValueView>>,
}

impl View for Sinks {
    type V = SinksView;

    open spec fn view(&self) -> SinksView {
        SinksView {
            flag_counts: self.flag_counts@,
            option_values: self.option_values.deep_view(),
            positional_values: self.positional_values.deep_view(),
        }
    }
}

/// One slot per spec of the schema.
pub open spec fn spec_sinks_match(s: SinksView, h: ArgHandlers) -> bool {
    &&& s.flag_counts.len() == h.flags@.len()
    &&& s.option_values.len() == h.options@.len()
    &&& s.positional_values.len() == h.positions@.len()
}

/// A counter bump that stops at the largest representable count.
pub open spec fn bump64(c: u64) -> u64 {
    if c == u64::MAX {
        c
    } else {
        (c + 1) as u64
    }
}

/// One more occurrence of the flag at index `i`.
pub open spec fn spec_record_flag(s: SinksView, i: int) -> SinksView {
    SinksView { flag_counts: s.flag_counts.update(i, bump64(s.flag_counts[i])), ..s }
}

/// A decoded value for the option at index `j`: appended when the option
/// collects multiple values, overwriting the slot otherwise.
pub open spec fn spec_record_option(s: SinksView, j: int, multiple: bool, v: ValueView) -> SinksView {
    let slot = if multiple {
        s.option_values[j].push(v)
    } else {
        seq![v]
    };
    SinksView { option_values: s.option_values.update(j, slot), ..s }
}

/// A decoded value for the positional at index `k`: appended when the slot
/// collects multiple values, overwriting it otherwise.
pub open spec fn spec_record_positional(
    s: SinksView,
    k: int,
    multiple: bool,
    v: ValueView,
) -> SinksView {
    let slot = if multiple {
        s.positional_values[k].push(v)
    } else {
        seq![v]
    };
    SinksView { positional_values: s.positional_values.update(k, slot), ..s }
}

impl Sinks {
    /// Fresh sinks for one parse call against `handlers`: every counter
    /// zero, every value slot empty. A caller that wants a default seeds
    /// the slot before parsing.
    pub fn new(handlers: &ArgHandlers) -> (r: Sinks)
        ensures
            spec_sinks_match(r@, *handlers),
            forall|i: int| 0 <= i < r@.flag_counts.len() ==> r@.flag_counts[i] == 0,
            forall|j: int| 0 <= j < r@.option_values.len() ==> r@.option_values[j].len() == 0,
            forall|k: int|
                0 <= k < r@.positional_values.len() ==> r@.positional_values[k].len() == 0,
    {
        let nf = handlers.flags.len();
        let no = handlers.options.len();
        let np = handlers.positions.len();
        let mut flag_counts: Vec<u64> = Vec::new();
        let mut i: usize = 0;
        while i < nf
            invariant
                0 <= i <= nf,
                flag_counts@.len() == i,
                forall|a: int| 0 <= a < i ==> flag_counts@[a] == 0,
            decreases nf - i,
        {
            flag_counts.push(0);
            i += 1;
        }
        let mut option_values: Vec<Vec<Value>> = Vec::new();
        let mut j: usize = 0;
        while j < no
            invariant
                0 <= j <= no,
                option_values@.len() == j,
                forall|a: int| 0 <= a < j ==> option_values@[a]@.len() == 0,
            decreases no - j,
        {
            option_values.push(Vec::new());
            j += 1;
        }
        let mut positional_values: Vec<Vec<Value>> = Vec::new();
        let mut k: usize = 0;
        while k < np
            invariant
                0 <= k <= np,
                positional_values@.len() == k,
                forall|a: int| 0 <= a < k ==> positional_values@[a]@.len() == 0,
            decreases np - k,
        {
            positional_values.push(Vec::new());
            k += 1;
        }
        let r = Sinks { flag_counts, option_values, positional_values };
        proof {
            assert forall|a: int| 0 <= a < r@.option_values.len() implies r@.option_values[a].len()
                == 0 by {
                assert(r@.option_values[a] == r.option_values@[a].deep_view());
            }
            assert forall|a: int|
                0 <= a < r@.positional_values.len() implies r@.positional_values[a].len() == 0 by {
                assert(r@.positional_values[a] == r.positional_values@[a].deep_view());
            }
        }
        r
    }

    /// Records one more occurrence of the flag at index `i`.
    pub fn record_flag(&mut self, i: usize)
        requires
            i < old(self)@.flag_counts.len(),
        ensures
            final(self)@ == spec_record_flag(old(self)@, i as int),
    {
        let c = self.flag_counts[i];
        let nc = if c == u64::MAX {
            c
        } else {
            c + 1
        };
        self.flag_counts.set(i, nc);
        proof {
            assert(self@.option_values =~= old(self)@.option_values);
            assert(self@.positional_values =~= old(self)@.positional_values);
        }
    }

    /// Records a decoded value for the option at index `j`.
    pub fn record_option(&mut self, j: usize, multiple: bool, v: Value)
        requires
            j < old(self)@.option_values.len(),
        ensures
            final(self)@ == spec_record_option(old(self)@, j as int, multiple, v@),
    {
        if multiple {
            self.option_values[j].push(v);
        } else {
            let mut slot: Vec<Value> = Vec::new();
            slot.push(v);
            self.option_values.set(j, slot);
        }
        proof {
            assert(self@.flag_counts =~= old(self)@.flag_counts);
            assert(self@.positional_values =~= old(self)@.positional_values);
            assert(self@.option_values =~~= spec_record_option(
                old(self)@,
                j as int,
                multiple,
                v@,
            ).option_values);
        }
    }

    /// Records a decoded value for the positional at index `k`.
    pub fn record_positional(&mut self, k: usize, multiple: bool, v: Value)
        requires
            k < old(self)@.positional_values.len(),
        ensures
            final(self)@ == spec_record_positional(old(self)@, k as int, multiple, v@),
    {
        if multiple {
            self.positional_values[k].push(v);
        } else {
            let mut slot: Vec<Value> = Vec::new();
            slot.push(v);
            self.positional_values.set(k, slot);
        }
        proof {
            assert(self@.flag_counts =~= old(self)@.flag_counts);
            assert(self@.option_values =~= old(self)@.option_values);
            assert(self@.positional_values =~~= spec_record_positional(
                old(self)@,
                k as int,
                multiple,
                v@,
            ).positional_values);
        }
    }
}

} // verus!
