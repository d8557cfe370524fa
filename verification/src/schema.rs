//! The schema registry: the immutable description of all flags, options and
//! positional slots for one parse call, with lookup by short character or
//! long name.
//!
//! A well-formed schema has pairwise-distinct short characters and
//! pairwise-distinct long names across flags and options, at most one
//! `multiple` positional (which must be last), and no required positional
//! after an optional one.

use vstd::prelude::*;
use crate::error::Error;
use crate::strutil::str_eq;
use crate::value::ParsedAssign;

verus! {

/// A switch with no associated value; each occurrence bumps a counter.
#[derive(Debug)]
pub struct FlagHandler {
    pub name: String,
    pub short: Option<char>,
    pub long: Option<String>,
}

/// A switch that takes exactly one value per occurrence.
#[derive(Debug)]
pub struct OptionHandler {
    pub name: String,
    pub short: Option<char>,
    pub long: Option<String>,
    /// Collect every occurrence in order, instead of keeping only the last.
    pub is_multiple: bool,
    /// Reject the whole parse if no occurrence ever supplies a value.
    pub required: bool,
    pub assign: ParsedAssign,
}

/// An argument matched by declaration order rather than by switch.
#[derive(Debug)]
pub struct PositionalHandler {
    pub name: String,
    /// Collect every further positional token, instead of rejecting it.
    pub is_multiple: bool,
    /// Reject the whole parse if no token ever fills this slot.
    pub required: bool,
    pub assign: ParsedAssign,
}

/// The schema: all flags, options and positional slots of one parse call.
#[derive(Debug)]
pub struct ArgHandlers {
    pub flags: Vec<FlagHandler>,
    pub options: Vec<OptionHandler>,
    pub positions: Vec<PositionalHandler>,
}

pub open spec fn flag_short_is(h: FlagHandler, c: char) -> bool {
    h.short == Some(c)
}

pub open spec fn flag_long_is(h: FlagHandler, l: Seq<char>) -> bool {
    match h.long {
        Some(s) => s@ == l,
        None => false,
    }
}

pub open spec fn option_short_is(h: OptionHandler, c: char) -> bool {
    h.short == Some(c)
}

pub open spec fn option_long_is(h: OptionHandler, l: Seq<char>) -> bool {
    match h.long {
        Some(s) => s@ == l,
        None => false,
    }
}

/// Index of the first flag at position `>= i` whose short character is `c`.
pub open spec fn flag_by_short_from(flags: Seq<FlagHandler>, c: char, i: int) -> Option<int>
    decreases flags.len() - i,
{
    if i < 0 || i >= flags.len() {
        None
    } else if flag_short_is(flags[i], c) {
        Some(i)
    } else {
        flag_by_short_from(flags, c, i + 1)
    }
}

pub open spec fn spec_flag_by_short(flags: Seq<FlagHandler>, c: char) -> Option<int> {
    flag_by_short_from(flags, c, 0)
}

/// Index of the first flag at position `>= i` whose long name is `l`.
pub open spec fn flag_by_long_from(flags: Seq<FlagHandler>, l: Seq<char>, i: int) -> Option<int>
    decreases flags.len() - i,
{
    if i < 0 || i >= flags.len() {
        None
    } else if flag_long_is(flags[i], l) {
        Some(i)
    } else {
        flag_by_long_from(flags, l, i + 1)
    }
}

pub open spec fn spec_flag_by_long(flags: Seq<FlagHandler>, l: Seq<char>) -> Option<int> {
    flag_by_long_from(flags, l, 0)
}

/// Index of the first option at position `>= i` whose short character is `c`.
pub open spec fn option_by_short_from(options: Seq<OptionHandler>, c: char, i: int) -> Option<int>
    decreases options.len() - i,
{
    if i < 0 || i >= options.len() {
        None
    } else if option_short_is(options[i], c) {
        Some(i)
    } else {
        option_by_short_from(options, c, i + 1)
    }
}

pub open spec fn spec_option_by_short(options: Seq<OptionHandler>, c: char) -> Option<int> {
    option_by_short_from(options, c, 0)
}

/// Index of the first option at position `>= i` whose long name is `l`.
pub open spec fn option_by_long_from(options: Seq<OptionHandler>, l: Seq<char>, i: int) -> Option<
    int,
>
    decreases options.len() - i,
{
    if i < 0 || i >= options.len() {
        None
    } else if option_long_is(options[i], l) {
        Some(i)
    } else {
        option_by_long_from(options, l, i + 1)
    }
}

pub open spec fn spec_option_by_long(options: Seq<OptionHandler>, l: Seq<char>) -> Option<int> {
    option_by_long_from(options, l, 0)
}

impl ArgHandlers {
    /// Finds the first flag registered under the short character `c`.
    pub fn flag_by_short(&self, c: char) -> (r: Option<usize>)
        ensures
            match r {
                Some(i) => i < self.flags@.len() && spec_flag_by_short(self.flags@, c) == Some(
                    i as int,
                ),
                None => spec_flag_by_short(self.flags@, c) is None,
            },
    {
        let n = self.flags.len();
        let mut i: usize = 0;
        while i < n
            invariant
                n == self.flags@.len(),
                0 <= i <= n,
                spec_flag_by_short(self.flags@, c) == flag_by_short_from(self.flags@, c, i as int),
            decreases n - i,
        {
            let h = &self.flags[i];
            let hit = match h.short {
                Some(x) => x == c,
                None => false,
            };
            if hit {
                return Some(i);
            }
            i += 1;
        }
        None
    }

    /// Finds the first flag registered under the long name `l`.
    pub fn flag_by_long(&self, l: &str) -> (r: Option<usize>)
        ensures
            match r {
                Some(i) => i < self.flags@.len() && spec_flag_by_long(self.flags@, l@) == Some(
                    i as int,
                ),
                None => spec_flag_by_long(self.flags@, l@) is None,
            },
    {
        let n = self.flags.len();
        let mut i: usize = 0;
        while i < n
            invariant
                n == self.flags@.len(),
                0 <= i <= n,
                spec_flag_by_long(self.flags@, l@) == flag_by_long_from(self.flags@, l@, i as int),
            decreases n - i,
        {
            let h = &self.flags[i];
            let hit = match &h.long {
                Some(x) => str_eq(x.as_str(), l),
                None => false,
            };
            if hit {
                return Some(i);
            }
            i += 1;
        }
        None
    }

    /// Finds the first option registered under the short character `c`.
    pub fn option_by_short(&self, c: char) -> (r: Option<usize>)
        ensures
            match r {
                Some(i) => i < self.options@.len() && spec_option_by_short(self.options@, c)
                    == Some(i as int),
                None => spec_option_by_short(self.options@, c) is None,
            },
    {
        let n = self.options.len();
        let mut i: usize = 0;
        while i < n
            invariant
                n == self.options@.len(),
                0 <= i <= n,
                spec_option_by_short(self.options@, c) == option_by_short_from(
                    self.options@,
                    c,
                    i as int,
                ),
            decreases n - i,
        {
            let h = &self.options[i];
            let hit = match h.short {
                Some(x) => x == c,
                None => false,
            };
            if hit {
                return Some(i);
            }
            i += 1;
        }
        None
    }

    /// Finds the first option registered under the long name `l`.
    pub fn option_by_long(&self, l: &str) -> (r: Option<usize>)
        ensures
            match r {
                Some(i) => i < self.options@.len() && spec_option_by_long(self.options@, l@)
                    == Some(i as int),
                None => spec_option_by_long(self.options@, l@) is None,
            },
    {
        let n = self.options.len();
        let mut i: usize = 0;
        while i < n
            invariant
                n == self.options@.len(),
                0 <= i <= n,
                spec_option_by_long(self.options@, l@) == option_by_long_from(
                    self.options@,
                    l@,
                    i as int,
                ),
            decreases n - i,
        {
            let h = &self.options[i];
            let hit = match &h.long {
                Some(x) => str_eq(x.as_str(), l),
                None => false,
            };
            if hit {
                return Some(i);
            }
            i += 1;
        }
        None
    }
}

/// The long name of a flag as a character sequence, if it has one.
pub open spec fn flag_long_view(h: FlagHandler) -> Option<Seq<char>> {
    match h.long {
        Some(s) => Some(s@),
        None => None,
    }
}

/// The long name of an option as a character sequence, if it has one.
pub open spec fn option_long_view(h: OptionHandler) -> Option<Seq<char>> {
    match h.long {
        Some(s) => Some(s@),
        None => None,
    }
}

/// Short characters are pairwise distinct across flags and options.
pub open spec fn shorts_distinct(flags: Seq<FlagHandler>, options: Seq<OptionHandler>) -> bool {
    &&& forall|i: int, j: int|
        0 <= i < j < flags.len() ==> !(flags[i].short is Some && flags[i].short == flags[j].short)
    &&& forall|i: int, j: int|
        0 <= i < j < options.len() ==> !(options[i].short is Some && options[i].short
            == options[j].short)
    &&& forall|i: int, j: int|
        0 <= i < flags.len() && 0 <= j < options.len() ==> !(flags[i].short is Some
            && flags[i].short == options[j].short)
}

/// Long names are pairwise distinct across flags and options.
pub open spec fn longs_distinct(flags: Seq<FlagHandler>, options: Seq<OptionHandler>) -> bool {
    &&& forall|i: int, j: int|
        0 <= i < j < flags.len() ==> !(flag_long_view(flags[i]) is Some && flag_long_view(flags[i])
            == flag_long_view(flags[j]))
    &&& forall|i: int, j: int|
        0 <= i < j < options.len() ==> !(option_long_view(options[i]) is Some && option_long_view(
            options[i],
        ) == option_long_view(options[j]))
    &&& forall|i: int, j: int|
        0 <= i < flags.len() && 0 <= j < options.len() ==> !(flag_long_view(flags[i]) is Some
            && flag_long_view(flags[i]) == option_long_view(options[j]))
}

/// Only the last positional may collect multiple tokens, and no required
/// positional stands after an optional one.
pub open spec fn positions_ordered(positions: Seq<PositionalHandler>) -> bool {
    &&& forall|i: int| 0 <= i < positions.len() - 1 ==> !positions[i].is_multiple
    &&& forall|i: int, j: int|
        0 <= i < j < positions.len() && positions[j].required ==> positions[i].required
}

/// The construction-time invariant of a schema.
pub open spec fn spec_wf(h: ArgHandlers) -> bool {
    &&& shorts_distinct(h.flags@, h.options@)
    &&& longs_distinct(h.flags@, h.options@)
    &&& positions_ordered(h.positions@)
}

fn shorts_dup(a: Option<char>, b: Option<char>) -> (r: bool)
    ensures
        r == (a is Some && a == b),
{
    match (a, b) {
        (Some(x), Some(y)) => x == y,
        _ => false,
    }
}

fn longs_dup(a: &Option<String>, b: &Option<String>) -> (r: bool)
    ensures
        r == ({
            let av = match a {
                Some(s) => Some(s@),
                None => None,
            };
            let bv = match b {
                Some(s) => Some(s@),
                None => None,
            };
            av is Some && av == bv
        }),
{
    match (a, b) {
        (Some(x), Some(y)) => str_eq(x.as_str(), y.as_str()),
        _ => false,
    }
}

fn check_flag_pairs(flags: &Vec<FlagHandler>) -> (b: bool)
    ensures
        b == (forall|i: int, j: int|
            0 <= i < j < flags@.len() ==> !((flags@[i].short is Some && flags@[i].short
                == flags@[j].short) || (flag_long_view(flags@[i]) is Some && flag_long_view(
                flags@[i],
            ) == flag_long_view(flags@[j])))),
{
    let n = flags.len();
    let mut i: usize = 0;
    while i < n
        invariant
            n == flags@.len(),
            0 <= i <= n,
            forall|a: int, b: int|
                0 <= a < b < n && a < i ==> !((flags@[a].short is Some && flags@[a].short
                    == flags@[b].short) || (flag_long_view(flags@[a]) is Some && flag_long_view(
                    flags@[a],
                ) == flag_long_view(flags@[b]))),
        decreases n - i,
    {
        let mut j: usize = i + 1;
        while j < n
            invariant
                n == flags@.len(),
                0 <= i < j <= n,
                forall|b: int|
                    i < b < j ==> !((flags@[i as int].short is Some && flags@[i as int].short
                        == flags@[b].short) || (flag_long_view(flags@[i as int]) is Some
                        && flag_long_view(flags@[i as int]) == flag_long_view(flags@[b]))),
            decreases n - j,
        {
            if shorts_dup(flags[i].short, flags[j].short) || longs_dup(&flags[i].long, &flags[j].long) {
                return false;
            }
            j += 1;
        }
        i += 1;
    }
    true
}

fn check_option_pairs(options: &Vec<OptionHandler>) -> (b: bool)
    ensures
        b == (forall|i: int, j: int|
            0 <= i < j < options@.len() ==> !((options@[i].short is Some && options@[i].short
                == options@[j].short) || (option_long_view(options@[i]) is Some
                && option_long_view(options@[i]) == option_long_view(options@[j])))),
{
    let n = options.len();
    let mut i: usize = 0;
    while i < n
        invariant
            n == options@.len(),
            0 <= i <= n,
            forall|a: int, b: int|
                0 <= a < b < n && a < i ==> !((options@[a].short is Some && options@[a].short
                    == options@[b].short) || (option_long_view(options@[a]) is Some
                    && option_long_view(options@[a]) == option_long_view(options@[b]))),
        decreases n - i,
    {
        let mut j: usize = i + 1;
        while j < n
            invariant
                n == options@.len(),
                0 <= i < j <= n,
                forall|b: int|
                    i < b < j ==> !((options@[i as int].short is Some && options@[i as int].short
                        == options@[b].short) || (option_long_view(options@[i as int]) is Some
                        && option_long_view(options@[i as int]) == option_long_view(options@[b]))),
            decreases n - j,
        {
            if shorts_dup(options[i].short, options[j].short) || longs_dup(
                &options[i].long,
                &options[j].long,
            ) {
                return false;
            }
            j += 1;
        }
        i += 1;
    }
    true
}

fn check_cross_pairs(flags: &Vec<FlagHandler>, options: &Vec<OptionHandler>) -> (b: bool)
    ensures
        b == (forall|i: int, j: int|
            0 <= i < flags@.len() && 0 <= j < options@.len() ==> !((flags@[i].short is Some
                && flags@[i].short == options@[j].short) || (flag_long_view(flags@[i]) is Some
                && flag_long_view(flags@[i]) == option_long_view(options@[j])))),
{
    let n = flags.len();
    let m = options.len();
    let mut i: usize = 0;
    while i < n
        invariant
            n == flags@.len(),
            m == options@.len(),
            0 <= i <= n,
            forall|a: int, b: int|
                0 <= a < i && 0 <= b < m ==> !((flags@[a].short is Some && flags@[a].short
                    == options@[b].short) || (flag_long_view(flags@[a]) is Some && flag_long_view(
                    flags@[a],
                ) == option_long_view(options@[b]))),
        decreases n - i,
    {
        let mut j: usize = 0;
        while j < m
            invariant
                n == flags@.len(),
                m == options@.len(),
                0 <= i < n,
                0 <= j <= m,
                forall|b: int|
                    0 <= b < j ==> !((flags@[i as int].short is Some && flags@[i as int].short
                        == options@[b].short) || (flag_long_view(flags@[i as int]) is Some
                        && flag_long_view(flags@[i as int]) == option_long_view(options@[b]))),
            decreases m - j,
        {
            if shorts_dup(flags[i].short, options[j].short) || longs_dup(
                &flags[i].long,
                &options[j].long,
            ) {
                return false;
            }
            j += 1;
        }
        i += 1;
    }
    true
}

fn check_positions(positions: &Vec<PositionalHandler>) -> (b: bool)
    ensures
        b == positions_ordered(positions@),
{
    let n = positions.len();
    let mut i: usize = 0;
    let mut seen_optional = false;
    let ghost mut opt_idx: int = 0;
    while i < n
        invariant
            n == positions@.len(),
            0 <= i <= n,
            seen_optional ==> 0 <= opt_idx < i && !positions@[opt_idx].required,
            !seen_optional ==> forall|k: int| 0 <= k < i ==> positions@[k].required,
            forall|a: int, b: int|
                0 <= a < b < i && positions@[b].required ==> positions@[a].required,
            forall|k: int| 0 <= k < i && k < n - 1 ==> !positions@[k].is_multiple,
        decreases n - i,
    {
        if positions[i].is_multiple && i + 1 != n {
            assert(!positions_ordered(positions@));
            return false;
        }
        if positions[i].required && seen_optional {
            assert(!positions_ordered(positions@));
            return false;
        }
        if !positions[i].required && !seen_optional {
            seen_optional = true;
            proof {
                opt_idx = i as int;
            }
        }
        i += 1;
    }
    true
}

impl ArgHandlers {
    /// Decides the construction-time invariant of the schema.
    pub fn validate(&self) -> (b: bool)
        ensures
            b == spec_wf(*self),
    {
        check_flag_pairs(&self.flags) && check_option_pairs(&self.options) && check_cross_pairs(
            &self.flags,
            &self.options,
        ) && check_positions(&self.positions)
    }

    /// The schema builder: accepts the registered specs only when the
    /// construction-time invariant holds, so that a parser never runs
    /// against an ambiguous schema.
    pub fn new(
        flags: Vec<FlagHandler>,
        options: Vec<OptionHandler>,
        positions: Vec<PositionalHandler>,
    ) -> (r: Result<ArgHandlers, Error>)
        ensures
            match r {
                Ok(h) => {
                    &&& h.flags@ == flags@
                    &&& h.options@ == options@
                    &&& h.positions@ == positions@
                    &&& spec_wf(h)
                },
                Err(e) => {
                    &&& !spec_wf(
                        (ArgHandlers { flags, options, positions }),
                    )
                    &&& e@ == crate::error::spec_other("invalid schema"@)
                },
            },
    {
        let h = ArgHandlers { flags, options, positions };
        if h.validate() {
            Ok(h)
        } else {
            Err(Error::other("invalid schema".to_owned()))
        }
    }
}

/// In every well-formed schema the short characters are pairwise distinct
/// and the long names are pairwise distinct, across flags and options alike.
pub proof fn lemma_wf_switches_distinct(h: ArgHandlers)
    requires
        spec_wf(h),
    ensures
        forall|i: int, j: int|
            0 <= i < j < h.flags@.len() ==> !(h.flags@[i].short is Some && h.flags@[i].short
                == h.flags@[j].short),
        forall|i: int, j: int|
            0 <= i < j < h.options@.len() ==> !(h.options@[i].short is Some && h.options@[i].short
                == h.options@[j].short),
        forall|i: int, j: int|
            0 <= i < h.flags@.len() && 0 <= j < h.options@.len() ==> !(h.flags@[i].short is Some
                && h.flags@[i].short == h.options@[j].short),
        forall|i: int, j: int|
            0 <= i < j < h.flags@.len() ==> !(flag_long_view(h.flags@[i]) is Some && flag_long_view(
                h.flags@[i],
            ) == flag_long_view(h.flags@[j])),
        forall|i: int, j: int|
            0 <= i < j < h.options@.len() ==> !(option_long_view(h.options@[i]) is Some
                && option_long_view(h.options@[i]) == option_long_view(h.options@[j])),
        forall|i: int, j: int|
            0 <= i < h.flags@.len() && 0 <= j < h.options@.len() ==> !(flag_long_view(
                h.flags@[i],
            ) is Some && flag_long_view(h.flags@[i]) == option_long_view(h.options@[j])),
{
}

} // verus!
