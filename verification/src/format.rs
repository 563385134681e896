//! Variable interpolation for bar text.
//!
//! A format string is copied to the output verbatim except for
//! placeholders: `{name}` (optionally `{name.key}` to address a part of a
//! variable, and optionally followed by `:` and a display hint) is
//! replaced by the named variable's current text. Doubled braces escape
//! themselves. Addressing a part and display hints belong to the data
//! collaborator that computes variable texts; here the variable's current
//! text is substituted as it stands.
//!
//! An unclosed or stray brace makes the whole string invalid; a
//! placeholder naming an unknown variable reports that name. The
//! forgiving entry point substitutes an empty string for any failure, so
//! a bad reference never takes the bar down.

use vstd::prelude::*;
use vstd::string::StrSliceExecFns;
use vstd::string::StringExecFns;
use crate::state::Runtime;
use crate::state::spec_var_lookup;
use crate::text::find_char;
use crate::text::spec_find_char;

verus! {

/// Why a format string could not be rendered: a placeholder named a
/// variable the table does not hold, or the string's braces are
/// malformed.
#[derive(Debug)]
pub enum FmtError {
    KeyError(String),
    Invalid,
}

/// The outcome of rendering a format string: the rendered text, the name
/// of the first missing variable, or a malformed string.
pub enum FmtOutcome {
    Done(Seq<char>),
    MissingKey(Seq<char>),
    Bad,
}

/// Text already rendered, put in front of the rest's outcome.
pub open spec fn spec_prepend(s: Seq<char>, f: FmtOutcome) -> FmtOutcome {
    match f {
        FmtOutcome::Done(t) => FmtOutcome::Done(s + t),
        _ => f,
    }
}

/// The first occurrence of `c` in `[from, end)`, or `end` when there is
/// none.
pub open spec fn spec_find_before(s: Seq<char>, c: char, from: int, end: int) -> int {
    match spec_find_char(s, c, from) {
        Some(t) => if t < end {
            t
        } else {
            end
        },
        None => end,
    }
}

/// A found character lies at or after the start of the search, inside the
/// text.
proof fn lemma_find_char_bounds(s: Seq<char>, c: char, from: int)
    ensures
        spec_find_char(s, c, from) matches Some(t) ==> from <= t < s.len(),
    decreases s.len() - from,
{
    if 0 <= from < s.len() && s[from] != c {
        lemma_find_char_bounds(s, c, from + 1);
    }
}

/// Rendering the format string from position `i` on: plain characters are
/// copied, `{{` and `}}` yield one brace, `{` opens a placeholder that
/// must close with `}` and whose name runs to the first `.` or `:` (or
/// the closing brace), and a stray `}` is malformed.
pub open spec fn spec_format_from(fmt: Seq<char>, vars: Seq<(String, String)>, i: int) -> FmtOutcome
    decreases fmt.len() - i,
        via spec_format_from_decreases
{
    if i < 0 || i >= fmt.len() {
        FmtOutcome::Done(Seq::empty())
    } else if fmt[i] == '{' {
        if i + 1 < fmt.len() && fmt[i + 1] == '{' {
            spec_prepend(seq!['{'], spec_format_from(fmt, vars, i + 2))
        } else {
            match spec_find_char(fmt, '}', i + 1) {
                None => FmtOutcome::Bad,
                Some(j) => {
                    let e = spec_find_before(fmt, ':', i + 1, j);
                    let d = spec_find_before(fmt, '.', i + 1, e);
                    let name = fmt.subrange(i + 1, d);
                    match spec_var_lookup(vars, name) {
                        Some(v) => spec_prepend(v@, spec_format_from(fmt, vars, j + 1)),
                        None => FmtOutcome::MissingKey(name),
                    }
                },
            }
        }
    } else if fmt[i] == '}' {
        if i + 1 < fmt.len() && fmt[i + 1] == '}' {
            spec_prepend(seq!['}'], spec_format_from(fmt, vars, i + 2))
        } else {
            FmtOutcome::Bad
        }
    } else {
        spec_prepend(seq![fmt[i]], spec_format_from(fmt, vars, i + 1))
    }
}

#[via_fn]
proof fn spec_format_from_decreases(fmt: Seq<char>, vars: Seq<(String, String)>, i: int) {
    lemma_find_char_bounds(fmt, '}', i + 1);
}

/// The outcome of rendering a whole format string against a variable
/// table.
pub open spec fn spec_format(fmt: Seq<char>, vars: Seq<(String, String)>) -> FmtOutcome {
    spec_format_from(fmt, vars, 0)
}

/// Nothing in front leaves the outcome alone.
proof fn lemma_prepend_empty(f: FmtOutcome)
    ensures
        spec_prepend(Seq::empty(), f) == f,
{
    match f {
        FmtOutcome::Done(t) => {
            assert(Seq::empty() + t =~= t);
        },
        _ => {},
    }
}

/// Putting two texts in front, one after the other, is putting their
/// concatenation in front.
proof fn lemma_prepend_prepend(a: Seq<char>, b: Seq<char>, f: FmtOutcome)
    ensures
        spec_prepend(a, spec_prepend(b, f)) == spec_prepend(a + b, f),
{
    match f {
        FmtOutcome::Done(t) => {
            assert(a + (b + t) =~= (a + b) + t);
        },
        _ => {},
    }
}

impl Runtime {
    /// Render a format string against the named-variable table: the
    /// rendered text, or the first failure — the name of the first
    /// missing variable, or the malformed-braces error.
    pub fn format(&self, fmt: &str) -> (r: Result<String, FmtError>)
        ensures
            match spec_format(fmt@, self.vars_entries()) {
                FmtOutcome::Done(s) => r matches Ok(out) && out@ == s,
                FmtOutcome::MissingKey(k) => r matches Err(e) && (e matches FmtError::KeyError(ks)
                    && ks@ == k),
                FmtOutcome::Bad => r matches Err(e) && e is Invalid,
            },
    {
        let n = fmt.unicode_len();
        let mut out = String::new();
        let mut i: usize = 0;
        proof {
            lemma_prepend_empty(spec_format_from(fmt@, self.vars_entries(), 0));
        }
        while i < n
            invariant
                i <= n,
                n == fmt@.len(),
                spec_format(fmt@, self.vars_entries()) == spec_prepend(
                    out@,
                    spec_format_from(fmt@, self.vars_entries(), i as int),
                ),
            decreases n - i,
        {
            let ghost pre = out@;
            let c = fmt.get_char(i);
            if c == '{' {
                if i + 1 < n && fmt.get_char(i + 1) == '{' {
                    proof {
                        reveal_strlit("{");
                        assert("{"@ =~= seq!['{']);
                        lemma_prepend_prepend(
                            pre,
                            seq!['{'],
                            spec_format_from(fmt@, self.vars_entries(), i + 2),
                        );
                    }
                    out.append("{");
                    i = i + 2;
                } else {
                    match find_char(fmt, '}', i + 1) {
                        None => {
                            return Err(FmtError::Invalid);
                        },
                        Some(j) => {
                            let e = match find_char(fmt, ':', i + 1) {
                                Some(t) => if t < j {
                                    t
                                } else {
                                    j
                                },
                                None => j,
                            };
                            let d = match find_char(fmt, '.', i + 1) {
                                Some(t) => if t < e {
                                    t
                                } else {
                                    e
                                },
                                None => e,
                            };
                            let name = fmt.substring_char(i + 1, d).to_owned();
                            match self.var_value(&name) {
                                Some(v) => {
                                    proof {
                                        lemma_prepend_prepend(
                                            pre,
                                            v@,
                                            spec_format_from(fmt@, self.vars_entries(), j + 1),
                                        );
                                    }
                                    out.append(v.as_str());
                                    i = j + 1;
                                },
                                None => {
                                    return Err(FmtError::KeyError(name));
                                },
                            }
                        },
                    }
                }
            } else if c == '}' {
                if i + 1 < n && fmt.get_char(i + 1) == '}' {
                    proof {
                        reveal_strlit("}");
                        assert("}"@ =~= seq!['}']);
                        lemma_prepend_prepend(
                            pre,
                            seq!['}'],
                            spec_format_from(fmt@, self.vars_entries(), i + 2),
                        );
                    }
                    out.append("}");
                    i = i + 2;
                } else {
                    return Err(FmtError::Invalid);
                }
            } else {
                let one = fmt.substring_char(i, i + 1);
                proof {
                    assert(one@ =~= seq![fmt@[i as int]]);
                    lemma_prepend_prepend(
                        pre,
                        seq![fmt@[i as int]],
                        spec_format_from(fmt@, self.vars_entries(), i + 1),
                    );
                }
                out.append(one);
                i = i + 1;
            }
        }
        proof {
            assert(out@ + Seq::<char>::empty() =~= out@);
        }
        Ok(out)
    }

    /// Render a format string, recovering from any failure with an empty
    /// string so a bad variable reference never takes the bar down.
    /// `context` names the place the string came from, for the caller's
    /// diagnostics.
    pub fn format_or(&self, fmt: &str, context: &str) -> (r: String)
        ensures
            r@ == (match spec_format(fmt@, self.vars_entries()) {
                FmtOutcome::Done(s) => s,
                _ => Seq::<char>::empty(),
            }),
    {
        let _ = context;
        match self.format(fmt) {
            Ok(v) => v,
            Err(_) => String::new(),
        }
    }
}

} // verus!
