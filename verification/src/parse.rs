//! The parser: the token-classification state machine.
//!
//! The behaviour of one whole parse call is pinned down by a spec-level
//! interpreter, [`spec_parse`]: it discards the leading program-name token,
//! folds a per-token step over the rest of the stream (a step may also
//! consume the following token as a value), and finally reports the first
//! required spec whose slot stayed empty. The executable parser is proved
//! to return exactly what the interpreter says, error messages included.
//!
//! A bare `--` token switches the rest of the stream to positional-only
//! mode. Finalization reports only the first missing required spec,
//! checking options before positionals, each in declaration order.

use vstd::prelude::*;
use crate::error::{
    Error, ErrorView, Switch, SwitchView, spec_invalid_utf8, spec_missing_required_argument,
    spec_missing_value, spec_too_many_positional, spec_unexpected_value, spec_unknown_switch,
};
use crate::schema::{
    ArgHandlers, OptionHandler, PositionalHandler, spec_flag_by_long, spec_flag_by_short,
    spec_option_by_long, spec_option_by_short,
};
use crate::sinks::{
    Sinks, SinksView, spec_record_flag, spec_record_option, spec_record_positional,
    spec_sinks_match,
};
use crate::strutil::{find_char, str_find_char};
use crate::value::spec_decode;

verus! {

/// The mutable state of one parse invocation: the sinks filled so far, how
/// many positional tokens were consumed, and whether a bare `--` has put
/// the parser into positional-only mode.
pub struct ParseState {
    pub sinks: SinksView,
    pub num_pos: int,
    pub trailing: bool,
}

/// What processing one switch token yields: done after this token, done
/// after also consuming the following token as a value, or failed (with
/// the sinks as they stood at the failure).
pub enum SwitchOut {
    One(SinksView),
    Two(SinksView),
    Fail(ErrorView, SinksView),
}

/// What one step of the state machine yields.
pub enum StepOut {
    Next(ParseState),
    Jump(ParseState),
    Fail(ErrorView, ParseState),
}

/// The outcome of the token loop: the first error, if any, and the state
/// as it stood when the loop stopped.
pub struct RunOut {
    pub err: Option<ErrorView>,
    pub state: ParseState,
}

/// The outcome of one whole parse call.
pub struct ParseOut {
    pub err: Option<ErrorView>,
    pub sinks: SinksView,
}

/// Decoding `raw` for the option at index `oi` and recording the value.
pub open spec fn spec_assign_option(
    schema: ArgHandlers,
    oi: int,
    raw: Seq<char>,
    sinks: SinksView,
) -> Result<SinksView, ErrorView> {
    let h = schema.options@[oi];
    match spec_decode(h.assign.value_type, h.assign.name@, raw) {
        Ok(v) => Ok(spec_record_option(sinks, oi, h.is_multiple, v)),
        Err(e) => Err(e),
    }
}

/// A long switch token, after the leading `--`: split at the first `=`
/// into a name and an optional inline value, then resolve the name as a
/// flag first, else as an option.
pub open spec fn spec_step_long(
    schema: ArgHandlers,
    a: Seq<char>,
    look: Option<Option<Seq<char>>>,
    sinks: SinksView,
) -> SwitchOut {
    let name = match find_char(a, '=') {
        Some(i) => a.take(i),
        None => a,
    };
    let optv = match find_char(a, '=') {
        Some(i) => Some(a.skip(i + 1)),
        None => None,
    };
    match spec_flag_by_long(schema.flags@, name) {
        Some(fi) => match optv {
            Some(_) => SwitchOut::Fail(spec_unexpected_value(SwitchView::Long(name)), sinks),
            None => SwitchOut::One(spec_record_flag(sinks, fi)),
        },
        None => match spec_option_by_long(schema.options@, name) {
            Some(oi) => match optv {
                Some(v) => match spec_assign_option(schema, oi, v, sinks) {
                    Ok(s2) => SwitchOut::One(s2),
                    Err(e) => SwitchOut::Fail(e, sinks),
                },
                None => match look {
                    None => SwitchOut::Fail(spec_missing_value(SwitchView::Long(name)), sinks),
                    Some(None) => SwitchOut::Fail(spec_invalid_utf8(), sinks),
                    Some(Some(v)) => match spec_assign_option(schema, oi, v, sinks) {
                        Ok(s2) => SwitchOut::Two(s2),
                        Err(e) => SwitchOut::Fail(e, sinks),
                    },
                },
            },
            None => SwitchOut::Fail(spec_unknown_switch(SwitchView::Long(name)), sinks),
        },
    }
}

/// A short cluster, after the leading `-`: each character that names a
/// flag is assigned in turn (unless its remainder starts with `=`); the
/// first character that instead names an option consumes the rest of the
/// token — or the next token, when nothing follows it — as its value.
pub open spec fn spec_step_cluster(
    schema: ArgHandlers,
    cs: Seq<char>,
    look: Option<Option<Seq<char>>>,
    sinks: SinksView,
) -> SwitchOut
    decreases cs.len(),
{
    if cs.len() == 0 {
        SwitchOut::One(sinks)
    } else {
        let c = cs[0];
        let rest = cs.drop_first();
        match spec_flag_by_short(schema.flags@, c) {
            Some(fi) => {
                if rest.len() > 0 && rest[0] == '=' {
                    SwitchOut::Fail(spec_unexpected_value(SwitchView::Short(c)), sinks)
                } else {
                    let s2 = spec_record_flag(sinks, fi);
                    if rest.len() == 0 {
                        SwitchOut::One(s2)
                    } else {
                        spec_step_cluster(schema, rest, look, s2)
                    }
                }
            },
            None => match spec_option_by_short(schema.options@, c) {
                Some(oi) => {
                    if rest.len() == 0 {
                        match look {
                            None => SwitchOut::Fail(
                                spec_missing_value(SwitchView::Short(c)),
                                sinks,
                            ),
                            Some(None) => SwitchOut::Fail(spec_invalid_utf8(), sinks),
                            Some(Some(v)) => match spec_assign_option(schema, oi, v, sinks) {
                                Ok(s2) => SwitchOut::Two(s2),
                                Err(e) => SwitchOut::Fail(e, sinks),
                            },
                        }
                    } else {
                        let raw = if rest[0] == '=' {
                            rest.drop_first()
                        } else {
                            rest
                        };
                        match spec_assign_option(schema, oi, raw, sinks) {
                            Ok(s2) => SwitchOut::One(s2),
                            Err(e) => SwitchOut::Fail(e, sinks),
                        }
                    }
                },
                None => SwitchOut::Fail(spec_unknown_switch(SwitchView::Short(c)), sinks),
            },
        }
    }
}

/// A positional token: it fills the slot at the positional cursor, or —
/// past the end — the last slot again if that one collects multiple
/// values; otherwise the token is one too many.
pub open spec fn spec_step_positional(
    schema: ArgHandlers,
    s: Seq<char>,
    num_pos: int,
    sinks: SinksView,
) -> Result<SinksView, ErrorView> {
    let np = schema.positions@.len() as int;
    let pi = if 0 <= num_pos < np {
        Some(num_pos)
    } else if np > 0 && schema.positions@[np - 1].is_multiple {
        Some(np - 1)
    } else {
        None
    };
    match pi {
        Some(k) => {
            let h = schema.positions@[k];
            match spec_decode(h.assign.value_type, h.assign.name@, s) {
                Ok(v) => Ok(spec_record_positional(sinks, k, h.is_multiple, v)),
                Err(e) => Err(e),
            }
        },
        None => Err(spec_too_many_positional(s)),
    }
}

/// Lifts the outcome of a switch token to a step of the state machine.
pub open spec fn spec_wrap_switch(so: SwitchOut, st: ParseState) -> StepOut {
    match so {
        SwitchOut::One(s2) => StepOut::Next(ParseState { sinks: s2, ..st }),
        SwitchOut::Two(s2) => StepOut::Jump(ParseState { sinks: s2, ..st }),
        SwitchOut::Fail(e, s2) => StepOut::Fail(e, ParseState { sinks: s2, ..st }),
    }
}

/// Lifts the outcome of a positional token to a step of the state machine.
pub open spec fn spec_wrap_positional(
    r: Result<SinksView, ErrorView>,
    st: ParseState,
) -> StepOut {
    match r {
        Ok(s2) => StepOut::Next(ParseState { sinks: s2, num_pos: st.num_pos + 1, ..st }),
        Err(e) => StepOut::Fail(e, st),
    }
}

/// One step of the state machine: classify the token by its first two
/// characters (a token that is not valid text fails at once) and process
/// it. `look` is the following token, if the stream still has one.
pub open spec fn spec_step(
    schema: ArgHandlers,
    tok: Option<Seq<char>>,
    look: Option<Option<Seq<char>>>,
    st: ParseState,
) -> StepOut {
    match tok {
        None => StepOut::Fail(spec_invalid_utf8(), st),
        Some(s) => {
            if st.trailing {
                spec_wrap_positional(spec_step_positional(schema, s, st.num_pos, st.sinks), st)
            } else if s.len() == 2 && s[0] == '-' && s[1] == '-' {
                StepOut::Next(ParseState { trailing: true, ..st })
            } else if s.len() > 2 && s[0] == '-' && s[1] == '-' {
                spec_wrap_switch(spec_step_long(schema, s.skip(2), look, st.sinks), st)
            } else if s.len() >= 2 && s[0] == '-' {
                spec_wrap_switch(spec_step_cluster(schema, s.skip(1), look, st.sinks), st)
            } else {
                spec_wrap_positional(spec_step_positional(schema, s, st.num_pos, st.sinks), st)
            }
        },
    }
}

/// The token loop: steps through the stream until it ends or a step fails.
pub open spec fn spec_run(
    schema: ArgHandlers,
    toks: Seq<Option<Seq<char>>>,
    st: ParseState,
) -> RunOut
    decreases toks.len(),
{
    if toks.len() == 0 {
        RunOut { err: None, state: st }
    } else {
        let look = if toks.len() >= 2 {
            Some(toks[1])
        } else {
            None
        };
        match spec_step(schema, toks[0], look, st) {
            StepOut::Next(st2) => spec_run(schema, toks.skip(1), st2),
            StepOut::Jump(st2) => if toks.len() >= 2 {
                spec_run(schema, toks.skip(2), st2)
            } else {
                RunOut { err: None, state: st2 }
            },
            StepOut::Fail(e, st2) => RunOut { err: Some(e), state: st2 },
        }
    }
}

/// Index of the first required option at position `>= i` whose slot is
/// still empty.
pub open spec fn first_missing_option_from(
    options: Seq<OptionHandler>,
    s: SinksView,
    i: int,
) -> Option<int>
    decreases options.len() - i,
{
    if i < 0 || i >= options.len() {
        None
    } else if options[i].required && s.option_values[i].len() == 0 {
        Some(i)
    } else {
        first_missing_option_from(options, s, i + 1)
    }
}

/// Index of the first required positional at position `>= i` whose slot is
/// still empty.
pub open spec fn first_missing_positional_from(
    positions: Seq<PositionalHandler>,
    s: SinksView,
    i: int,
) -> Option<int>
    decreases positions.len() - i,
{
    if i < 0 || i >= positions.len() {
        None
    } else if positions[i].required && s.positional_values[i].len() == 0 {
        Some(i)
    } else {
        first_missing_positional_from(positions, s, i + 1)
    }
}

/// The finalization check: the first required spec that never received a
/// value, options before positionals, each in declaration order.
pub open spec fn spec_finalize_err(schema: ArgHandlers, s: SinksView) -> Option<ErrorView> {
    match first_missing_option_from(schema.options@, s, 0) {
        Some(i) => Some(spec_missing_required_argument(schema.options@[i].name@)),
        None => match first_missing_positional_from(schema.positions@, s, 0) {
            Some(k) => Some(spec_missing_required_argument(schema.positions@[k].name@)),
            None => None,
        },
    }
}

/// The token loop over one whole stream: the program-name token is
/// discarded unseen (a no-op on an empty stream), then the loop steps
/// through every remaining token.
pub open spec fn spec_run_all(
    schema: ArgHandlers,
    toks: Seq<Option<Seq<char>>>,
    sinks0: SinksView,
) -> RunOut {
    let st0 = ParseState { sinks: sinks0, num_pos: 0, trailing: false };
    if toks.len() == 0 {
        RunOut { err: None, state: st0 }
    } else {
        spec_run(schema, toks.skip(1), st0)
    }
}

/// One whole parse call over the token stream `toks`, starting from the
/// sink state `sinks0`: the token loop runs, and — when it finishes
/// without error — the finalization check runs on the resulting sinks.
pub open spec fn spec_parse(
    schema: ArgHandlers,
    toks: Seq<Option<Seq<char>>>,
    sinks0: SinksView,
) -> ParseOut {
    let r = spec_run_all(schema, toks, sinks0);
    match r.err {
        Some(e) => ParseOut { err: Some(e), sinks: r.state.sinks },
        None => ParseOut { err: spec_finalize_err(schema, r.state.sinks), sinks: r.state.sinks },
    }
}

/// The lookahead token as the interpreter sees it: absent at the end of
/// the stream, otherwise the (possibly non-text) token itself.
pub open spec fn look_of(look: Option<&Option<String>>) -> Option<Option<Seq<char>>> {
    match look {
        None => None,
        Some(o) => Some(o.deep_view()),
    }
}

/// Pulls the following token as the value of `switch`: the stream may have
/// ended, or the token may not be valid text.
fn next_value(look: Option<&Option<String>>, switch: Switch) -> (r: Result<String, Error>)
    ensures
        match look_of(look) {
            None => r matches Err(e) && e@ == spec_missing_value(switch@),
            Some(None) => r matches Err(e) && e@ == spec_invalid_utf8(),
            Some(Some(v)) => r matches Ok(s) && s@ == v,
        },
{
    match look {
        None => Err(Error::missing_value(switch)),
        Some(o) => match o {
            Some(s) => Ok(s.clone()),
            None => Err(Error::invalid_utf8()),
        },
    }
}

/// Decodes `value` for the option at index `oi` and records it.
fn give_option(handlers: &ArgHandlers, sinks: &mut Sinks, oi: usize, value: String) -> (r: Result<
    (),
    Error,
>)
    requires
        spec_sinks_match(old(sinks)@, *handlers),
        oi < handlers.options@.len(),
    ensures
        spec_sinks_match(final(sinks)@, *handlers),
        match spec_assign_option(*handlers, oi as int, value@, old(sinks)@) {
            Ok(s2) => r is Ok && final(sinks)@ == s2,
            Err(e) => (r matches Err(er) && er@ == e) && final(sinks)@ == old(sinks)@,
        },
{
    let h = &handlers.options[oi];
    match h.assign.assign(value) {
        Ok(v) => {
            sinks.record_option(oi, h.is_multiple, v);
            Ok(())
        },
        Err(e) => Err(e),
    }
}

/// Processes a long switch token (its text after the leading `--`).
/// Returns whether the following token was consumed as a value.
fn run_long(
    handlers: &ArgHandlers,
    sinks: &mut Sinks,
    arg: &str,
    look: Option<&Option<String>>,
) -> (r: Result<bool, Error>)
    requires
        spec_sinks_match(old(sinks)@, *handlers),
    ensures
        spec_sinks_match(final(sinks)@, *handlers),
        r matches Ok(two) && two ==> look_of(look) is Some,
        match spec_step_long(*handlers, arg@, look_of(look), old(sinks)@) {
            SwitchOut::One(s2) => (r matches Ok(two) && !two) && final(sinks)@ == s2,
            SwitchOut::Two(s2) => (r matches Ok(two) && two) && final(sinks)@ == s2,
            SwitchOut::Fail(e, s2) => (r matches Err(er) && er@ == e) && final(sinks)@ == s2,
        },
{
    let n = arg.unicode_len();
    let eqpos = str_find_char(arg, '=');
    let (name, optv): (&str, Option<&str>) = match eqpos {
        Some(p) => (arg.substring_char(0, p), Some(arg.substring_char(p + 1, n))),
        None => (arg, None),
    };
    proof {
        match find_char(arg@, '=') {
            Some(p) => {
                assert(name@ =~= arg@.take(p));
            },
            None => {},
        }
    }
    match handlers.flag_by_long(name) {
        Some(fi) => match optv {
            Some(_) => Err(Error::unexpected_value(Switch::Long(name.to_owned()))),
            None => {
                sinks.record_flag(fi);
                Ok(false)
            },
        },
        None => match handlers.option_by_long(name) {
            Some(oi) => match optv {
                Some(v) => {
                    give_option(handlers, sinks, oi, v.to_owned())?;
                    Ok(false)
                },
                None => {
                    let value = match next_value(look, Switch::Long(name.to_owned())) {
                        Ok(value) => value,
                        Err(e) => {
                            return Err(e);
                        },
                    };
                    give_option(handlers, sinks, oi, value)?;
                    Ok(true)
                },
            },
            None => Err(Error::unknown_switch(Switch::Long(name.to_owned()))),
        },
    }
}

/// Processes a short cluster token (the whole token, `-` first).
/// Returns whether the following token was consumed as a value.
fn run_cluster(
    handlers: &ArgHandlers,
    sinks: &mut Sinks,
    tok: &str,
    look: Option<&Option<String>>,
) -> (r: Result<bool, Error>)
    requires
        spec_sinks_match(old(sinks)@, *handlers),
        tok@.len() >= 2,
    ensures
        spec_sinks_match(final(sinks)@, *handlers),
        r matches Ok(two) && two ==> look_of(look) is Some,
        match spec_step_cluster(*handlers, tok@.skip(1), look_of(look), old(sinks)@) {
            SwitchOut::One(s2) => (r matches Ok(two) && !two) && final(sinks)@ == s2,
            SwitchOut::Two(s2) => (r matches Ok(two) && two) && final(sinks)@ == s2,
            SwitchOut::Fail(e, s2) => (r matches Err(er) && er@ == e) && final(sinks)@ == s2,
        },
{
    let n = tok.unicode_len();
    let mut k: usize = 1;
    while k < n
        invariant
            n == tok@.len(),
            n >= 2,
            1 <= k < n,
            spec_sinks_match(sinks@, *handlers),
            spec_step_cluster(*handlers, tok@.skip(1), look_of(look), old(sinks)@)
                == spec_step_cluster(*handlers, tok@.skip(k as int), look_of(look), sinks@),
        decreases n - k,
    {
        let ghost pre = sinks@;
        let ghost cs = tok@.skip(k as int);
        proof {
            assert(cs[0] == tok@[k as int]);
            assert(cs.drop_first() =~= tok@.skip(k + 1));
        }
        let c = tok.get_char(k);
        match handlers.flag_by_short(c) {
            Some(fi) => {
                if k + 1 < n && tok.get_char(k + 1) == '=' {
                    proof {
                        assert(spec_step_cluster(*handlers, cs, look_of(look), pre)
                            == SwitchOut::Fail(
                            spec_unexpected_value(SwitchView::Short(c)),
                            pre,
                        ));
                    }
                    return Err(Error::unexpected_value(Switch::Short(c)));
                }
                sinks.record_flag(fi);
                if k + 1 == n {
                    proof {
                        assert(spec_step_cluster(*handlers, cs, look_of(look), pre)
                            == SwitchOut::One(spec_record_flag(pre, fi as int)));
                    }
                    return Ok(false);
                }
                proof {
                    assert(spec_step_cluster(*handlers, cs, look_of(look), pre)
                        == spec_step_cluster(
                        *handlers,
                        tok@.skip(k + 1),
                        look_of(look),
                        spec_record_flag(pre, fi as int),
                    ));
                }
                k += 1;
            },
            None => match handlers.option_by_short(c) {
                Some(oi) => {
                    if k + 1 == n {
                        let value = match next_value(look, Switch::Short(c)) {
                            Ok(value) => value,
                            Err(e) => {
                                return Err(e);
                            },
                        };
                        proof {
                            assert(look_of(look) matches Some(lv2) && lv2 matches Some(vv)
                                && value@ == vv);
                        }
                        give_option(handlers, sinks, oi, value)?;
                        return Ok(true);
                    } else {
                        let start = if tok.get_char(k + 1) == '=' {
                            k + 2
                        } else {
                            k + 1
                        };
                        let value = tok.substring_char(start, n);
                        proof {
                            if tok@[k + 1] == '=' {
                                assert(value@ =~= cs.drop_first().drop_first());
                            } else {
                                assert(value@ =~= cs.drop_first());
                            }
                        }
                        give_option(handlers, sinks, oi, value.to_owned())?;
                        return Ok(false);
                    }
                },
                None => {
                    return Err(Error::unknown_switch(Switch::Short(c)));
                },
            },
        }
    }
    proof {
        assert(false);
    }
    Ok(false)
}

/// Processes a positional token against the positional cursor `num_pos`.
fn run_positional(handlers: &ArgHandlers, sinks: &mut Sinks, arg: &str, num_pos: usize) -> (r:
    Result<(), Error>)
    requires
        spec_sinks_match(old(sinks)@, *handlers),
    ensures
        spec_sinks_match(final(sinks)@, *handlers),
        match spec_step_positional(*handlers, arg@, num_pos as int, old(sinks)@) {
            Ok(s2) => r is Ok && final(sinks)@ == s2,
            Err(e) => (r matches Err(er) && er@ == e) && final(sinks)@ == old(sinks)@,
        },
{
    let np = handlers.positions.len();
    let pi: Option<usize> = if num_pos < np {
        Some(num_pos)
    } else if np > 0 && handlers.positions[np - 1].is_multiple {
        Some(np - 1)
    } else {
        None
    };
    match pi {
        Some(t) => {
            let h = &handlers.positions[t];
            match h.assign.assign(arg.to_owned()) {
                Ok(v) => {
                    sinks.record_positional(t, h.is_multiple, v);
                    Ok(())
                },
                Err(e) => Err(e),
            }
        },
        None => Err(Error::too_many_positional(arg)),
    }
}

/// The finalization check: reports the first required spec whose slot is
/// still empty, options before positionals, each in declaration order.
fn finalize(handlers: &ArgHandlers, sinks: &Sinks) -> (r: Option<Error>)
    requires
        spec_sinks_match(sinks@, *handlers),
    ensures
        match (r, spec_finalize_err(*handlers, sinks@)) {
            (Some(e), Some(ev)) => e@ == ev,
            (None, None) => true,
            _ => false,
        },
{
    let no = handlers.options.len();
    let mut i: usize = 0;
    while i < no
        invariant
            no == handlers.options@.len(),
            spec_sinks_match(sinks@, *handlers),
            0 <= i <= no,
            first_missing_option_from(handlers.options@, sinks@, 0) == first_missing_option_from(
                handlers.options@,
                sinks@,
                i as int,
            ),
        decreases no - i,
    {
        let h = &handlers.options[i];
        proof {
            assert(sinks@.option_values[i as int] == sinks.option_values@[i as int].deep_view());
        }
        if h.required && sinks.option_values[i].len() == 0 {
            return Some(Error::missing_required_argument(h.name.as_str()));
        }
        i += 1;
    }
    let np = handlers.positions.len();
    let mut k: usize = 0;
    while k < np
        invariant
            np == handlers.positions@.len(),
            spec_sinks_match(sinks@, *handlers),
            0 <= k <= np,
            first_missing_option_from(handlers.options@, sinks@, 0) is None,
            first_missing_positional_from(handlers.positions@, sinks@, 0)
                == first_missing_positional_from(handlers.positions@, sinks@, k as int),
        decreases np - k,
    {
        let h = &handlers.positions[k];
        proof {
            assert(sinks@.positional_values[k as int] == sinks.positional_values@[
                k as int].deep_view());
        }
        if h.required && sinks.positional_values[k].len() == 0 {
            return Some(Error::missing_required_argument(h.name.as_str()));
        }
        k += 1;
    }
    None
}

/// Parses the token stream `args` against the schema `handlers`, recording
/// every assignment in `sinks`.
///
/// The first token is the invoked-program name and is discarded unseen (a
/// no-op on an empty stream). The result, and the final content of the
/// sinks, are exactly what the interpreter [`spec_parse`] says for this
/// stream: on `Err` the parse stopped at that error with the assignments
/// made up to it, on `Ok` the whole stream was consumed and every required
/// spec received a value. A token that is `None` stands for text the
/// platform could not hand over as a string.
pub fn parse_args(args: &Vec<Option<String>>, handlers: &ArgHandlers, sinks: &mut Sinks) -> (r:
    Result<(), Error>)
    requires
        spec_sinks_match(old(sinks)@, *handlers),
    ensures
        spec_sinks_match(final(sinks)@, *handlers),
        ({
            let out = spec_parse(*handlers, args.deep_view(), old(sinks)@);
            &&& final(sinks)@ == out.sinks
            &&& (match r {
                Ok(u) => out.err is None,
                Err(e) => out.err == Some(e@),
            })
        }),
{
    let ghost toks = args.deep_view();
    let n = args.len();
    let mut i: usize = 1;
    let mut num_pos: usize = 0;
    let mut trailing = false;
    while i < n
        invariant
            toks == args.deep_view(),
            n == args@.len(),
            toks.len() == n,
            spec_sinks_match(sinks@, *handlers),
            spec_sinks_match(old(sinks)@, *handlers),
            1 <= i,
            num_pos < i,
            n == 0 ==> i == 1 && sinks@ == old(sinks)@ && num_pos == 0 && !trailing,
            n > 0 ==> i <= n && spec_run(
                *handlers,
                toks.skip(1),
                (ParseState { sinks: old(sinks)@, num_pos: 0, trailing: false }),
            ) == spec_run(
                *handlers,
                toks.skip(i as int),
                (ParseState { sinks: sinks@, num_pos: num_pos as int, trailing }),
            ),
        decreases n - i,
    {
        let ghost cur = ParseState { sinks: sinks@, num_pos: num_pos as int, trailing };
        let ghost rem = toks.skip(i as int);
        proof {
            assert(rem[0] == toks[i as int]);
            assert(toks[i as int] == args@[i as int].deep_view());
            if i + 1 < n {
                assert(rem[1] == toks[i + 1]);
                assert(toks[i + 1] == args@[i + 1].deep_view());
            }
        }
        let look: Option<&Option<String>> = if i + 1 < n {
            Some(&args[i + 1])
        } else {
            None
        };
        let ghost spec_look = if rem.len() >= 2 {
            Some(rem[1])
        } else {
            None
        };
        proof {
            assert(look_of(look) == spec_look);
        }
        match &args[i] {
            None => {
                proof {
                    assert(spec_run(*handlers, rem, cur) == (RunOut {
                        err: Some(spec_invalid_utf8()),
                        state: cur,
                    }));
                }
                return Err(Error::invalid_utf8());
            },
            Some(s) => {
                let st = s.as_str();
                let slen = st.unicode_len();
                let is_long = !trailing && slen >= 2 && st.get_char(0) == '-' && st.get_char(1)
                    == '-';
                if is_long && slen == 2 {
                    proof {
                        assert(spec_step(*handlers, rem[0], spec_look, cur) == StepOut::Next(
                            (ParseState { trailing: true, ..cur }),
                        ));
                        assert(rem.skip(1) =~= toks.skip(i + 1));
                    }
                    trailing = true;
                    i += 1;
                } else if is_long {
                    let restv = st.substring_char(2, slen);
                    proof {
                        assert(restv@ =~= s@.skip(2));
                    }
                    match run_long(handlers, sinks, restv, look) {
                        Ok(consumed) => {
                            if consumed {
                                proof {
                                    assert(spec_step(*handlers, rem[0], spec_look, cur)
                                        == StepOut::Jump(
                                        (ParseState { sinks: sinks@, ..cur }),
                                    ));
                                    assert(rem.len() >= 2);
                                    assert(rem.skip(2) =~= toks.skip(i + 2));
                                }
                                i += 2;
                            } else {
                                proof {
                                    assert(spec_step(*handlers, rem[0], spec_look, cur)
                                        == StepOut::Next(
                                        (ParseState { sinks: sinks@, ..cur }),
                                    ));
                                    assert(rem.skip(1) =~= toks.skip(i + 1));
                                }
                                i += 1;
                            }
                        },
                        Err(e) => {
                            proof {
                                assert(spec_run(*handlers, rem, cur) == (RunOut {
                                    err: Some(e@),
                                    state: (ParseState { sinks: sinks@, ..cur }),
                                }));
                            }
                            return Err(e);
                        },
                    }
                } else if !trailing && slen >= 2 && st.get_char(0) == '-' {
                    match run_cluster(handlers, sinks, st, look) {
                        Ok(consumed) => {
                            if consumed {
                                proof {
                                    assert(spec_step(*handlers, rem[0], spec_look, cur)
                                        == StepOut::Jump(
                                        (ParseState { sinks: sinks@, ..cur }),
                                    ));
                                    assert(rem.len() >= 2);
                                    assert(rem.skip(2) =~= toks.skip(i + 2));
                                }
                                i += 2;
                            } else {
                                proof {
                                    assert(spec_step(*handlers, rem[0], spec_look, cur)
                                        == StepOut::Next(
                                        (ParseState { sinks: sinks@, ..cur }),
                                    ));
                                    assert(rem.skip(1) =~= toks.skip(i + 1));
                                }
                                i += 1;
                            }
                        },
                        Err(e) => {
                            proof {
                                assert(spec_run(*handlers, rem, cur) == (RunOut {
                                    err: Some(e@),
                                    state: (ParseState { sinks: sinks@, ..cur }),
                                }));
                            }
                            return Err(e);
                        },
                    }
                } else {
                    match run_positional(handlers, sinks, st, num_pos) {
                        Ok(_) => {
                            proof {
                                assert(spec_step(*handlers, rem[0], spec_look, cur)
                                    == StepOut::Next(
                                    (ParseState {
                                        sinks: sinks@,
                                        num_pos: cur.num_pos + 1,
                                        ..cur
                                    }),
                                ));
                                assert(rem.skip(1) =~= toks.skip(i + 1));
                            }
                            num_pos += 1;
                            i += 1;
                        },
                        Err(e) => {
                            proof {
                                assert(spec_run(*handlers, rem, cur) == (RunOut {
                                    err: Some(e@),
                                    state: cur,
                                }));
                            }
                            return Err(e);
                        },
                    }
                }
            },
        }
    }
    proof {
        if n > 0 {
            assert(toks.skip(i as int).len() == 0);
            assert(spec_run(
                *handlers,
                toks.skip(i as int),
                (ParseState { sinks: sinks@, num_pos: num_pos as int, trailing }),
            ) == (RunOut {
                err: None,
                state: (ParseState { sinks: sinks@, num_pos: num_pos as int, trailing }),
            }));
        }
    }
    match finalize(handlers, sinks) {
        Some(e) => Err(e),
        None => Ok(()),
    }
}

proof fn lemma_first_missing_option_iff(options: Seq<OptionHandler>, s: SinksView, i: int)
    requires
        0 <= i <= options.len(),
    ensures
        first_missing_option_from(options, s, i) is None <==> (forall|j: int|
            i <= j < options.len() && options[j].required ==> s.option_values[j].len() > 0),
    decreases options.len() - i,
{
    if i < options.len() {
        lemma_first_missing_option_iff(options, s, i + 1);
    }
}

proof fn lemma_first_missing_positional_iff(positions: Seq<PositionalHandler>, s: SinksView, i: int)
    requires
        0 <= i <= positions.len(),
    ensures
        first_missing_positional_from(positions, s, i) is None <==> (forall|j: int|
            i <= j < positions.len() && positions[j].required ==> s.positional_values[j].len()
                > 0),
    decreases positions.len() - i,
{
    if i < positions.len() {
        lemma_first_missing_positional_iff(positions, s, i + 1);
    }
}

/// A parse over a whole token stream succeeds exactly when the token loop
/// steps through every token without error — in particular, the stream is
/// always consumed in full — and every required option and positional
/// received at least one value by the time the loop ended.
pub proof fn lemma_parse_success(
    schema: ArgHandlers,
    toks: Seq<Option<Seq<char>>>,
    sinks0: SinksView,
)
    ensures
        spec_parse(schema, toks, sinks0).err is None <==> ({
            let r = spec_run_all(schema, toks, sinks0);
            &&& r.err is None
            &&& (forall|j: int|
                0 <= j < schema.options@.len() && schema.options@[j].required
                    ==> r.state.sinks.option_values[j].len() > 0)
            &&& (forall|k: int|
                0 <= k < schema.positions@.len() && schema.positions@[k].required
                    ==> r.state.sinks.positional_values[k].len() > 0)
        }),
{
    let r = spec_run_all(schema, toks, sinks0);
    lemma_first_missing_option_iff(schema.options@, r.state.sinks, 0);
    lemma_first_missing_positional_iff(schema.positions@, r.state.sinks, 0);
}

/// Parsing is a function of the schema, the token stream and the initial
/// sink state alone: the same stream parsed twice against sinks in the
/// same state produces the identical outcome — the same decoded values in
/// the same order, or the same error.
pub proof fn lemma_parse_idempotent(
    schema: ArgHandlers,
    toks: Seq<Option<Seq<char>>>,
    s1: SinksView,
    s2: SinksView,
)
    requires
        s1 == s2,
    ensures
        spec_parse(schema, toks, s1) == spec_parse(schema, toks, s2),
{
}

} // verus!
