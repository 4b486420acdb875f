//! Token resolution for destination paths (`{install_dir}` and friends) and
//! the decisions of the extraction step.
use vstd::prelude::*;
use vstd::string::*;
use crate::bundle::{BundleEntry, BundleManifest, CollectedFile, records_files};
use crate::error::{ErrorView, LynxError};
use crate::host::{HostPaths, Platform, or_default};
use crate::progress::{EventView, ProgressEvent};
use crate::text::{
    chars_of, concat, concat3, decimal, decimal_string, lemma_replace_all_absent, lemma_replace_all_keeps_prefix,
    lemma_replace_all_step, matches_at, replace_all, replace_char,
    replace_char_spec, replace_chars, replace_from, str_equal, string_of,
};

verus! {

/// Ordered token table: each entry is a token name and its value.
pub type TokenTable = Seq<(Seq<char>, Seq<char>)>;

/// `{token}`: the text that stands for `token` in a path.
pub open spec fn brace(token: Seq<char>) -> Seq<char> {
    seq!['{'] + token + seq!['}']
}

/// `s` with every `{token}` of `table` replaced by its value, one token
/// after the other in table order.
pub open spec fn resolve_spec(s: Seq<char>, table: TokenTable) -> Seq<char>
    decreases table.len(),
{
    if table.len() == 0 {
        s
    } else {
        resolve_spec(replace_all(s, brace(table[0].0), table[0].1), table.drop_first())
    }
}

/// No token name occurs twice in `table`.
pub open spec fn distinct_tokens(table: TokenTable) -> bool {
    forall|i: int, j: int| 0 <= i < j < table.len() ==> #[trigger] table[i].0 != #[trigger] table[j].0
}

/// The value that `table` gives `token`, if any.
pub open spec fn token_value(table: TokenTable, token: Seq<char>) -> Option<Seq<char>>
    decreases table.len(),
{
    if table.len() == 0 {
        None
    } else if table[0].0 == token {
        Some(table[0].1)
    } else {
        token_value(table.drop_first(), token)
    }
}

/// `table` after setting `token` to `value`: an existing entry keeps its
/// place and takes the new value; a new token goes last.
pub open spec fn set_spec(table: TokenTable, token: Seq<char>, value: Seq<char>) -> TokenTable
    decreases table.len(),
{
    if table.len() == 0 {
        seq![(token, value)]
    } else if table[0].0 == token {
        table.update(0, (token, value))
    } else {
        seq![table[0]] + set_spec(table.drop_first(), token, value)
    }
}

/// After setting `token` to `value`, the table gives `token` the value
/// `value` and every other token the value it gave before.
pub proof fn lemma_set_then_lookup(table: TokenTable, token: Seq<char>, value: Seq<char>, k: Seq<char>)
    ensures
        token_value(set_spec(table, token, value), k) == if k == token {
            Some(value)
        } else {
            token_value(table, k)
        },
    decreases table.len(),
{
    let t2 = set_spec(table, token, value);
    if table.len() == 0 {
        assert(t2[0] == (token, value));
        assert(t2.drop_first().len() == 0);
        assert(token_value(t2.drop_first(), k) is None);
        assert(token_value(table, k) is None);
    } else if table[0].0 == token {
        assert(t2[0] == (token, value));
        assert(t2.drop_first() =~= table.drop_first());
        if k != token {
            assert(token_value(t2, k) == token_value(t2.drop_first(), k));
            assert(token_value(table, k) == token_value(table.drop_first(), k));
        }
    } else {
        lemma_set_then_lookup(table.drop_first(), token, value, k);
        assert(t2[0] == table[0]);
        assert(t2.drop_first() =~= set_spec(table.drop_first(), token, value));
    }
}

/// Setting a token keeps the token names distinct.
pub proof fn lemma_set_keeps_distinct(table: TokenTable, token: Seq<char>, value: Seq<char>)
    requires
        distinct_tokens(table),
    ensures
        distinct_tokens(set_spec(table, token, value)),
        set_spec(table, token, value).len() >= table.len(),
        forall|j: int| 0 <= j < set_spec(table, token, value).len() ==> (#[trigger] set_spec(table, token, value)[j].0 == token
            || exists|m: int| 0 <= m < table.len() && table[m].0 == set_spec(table, token, value)[j].0),
    decreases table.len(),
{
    let t2 = set_spec(table, token, value);
    if table.len() == 0 {
    } else if table[0].0 == token {
        assert forall|a: int, b: int| 0 <= a < b < t2.len() implies #[trigger] t2[a].0 != #[trigger] t2[b].0 by {
            assert(table[a].0 != table[b].0);
        }
        assert forall|j: int| 0 <= j < t2.len() implies (#[trigger] t2[j].0 == token
            || exists|m: int| 0 <= m < table.len() && table[m].0 == t2[j].0) by {
            if j > 0 {
                assert(table[j].0 == t2[j].0);
            }
        }
    } else {
        let rest = table.drop_first();
        assert(distinct_tokens(rest)) by {
            assert forall|a: int, b: int| 0 <= a < b < rest.len() implies #[trigger] rest[a].0 != #[trigger] rest[b].0 by {
                assert(table[a + 1].0 != table[b + 1].0);
            }
        }
        lemma_set_keeps_distinct(rest, token, value);
        let r2 = set_spec(rest, token, value);
        assert(t2 == seq![table[0]] + r2);
        assert forall|j: int| 0 <= j < t2.len() implies (#[trigger] t2[j].0 == token
            || exists|m: int| 0 <= m < table.len() && table[m].0 == t2[j].0) by {
            if j == 0 {
                assert(table[0].0 == t2[0].0);
            } else {
                assert(t2[j] == r2[j - 1]);
                if r2[j - 1].0 != token {
                    let m = choose|m: int| 0 <= m < rest.len() && rest[m].0 == r2[j - 1].0;
                    assert(table[m + 1].0 == t2[j].0);
                }
            }
        }
        assert forall|a: int, b: int| 0 <= a < b < t2.len() implies #[trigger] t2[a].0 != #[trigger] t2[b].0 by {
            if a == 0 {
                assert(t2[b] == r2[b - 1]);
                if r2[b - 1].0 != token {
                    let m = choose|m: int| 0 <= m < rest.len() && rest[m].0 == r2[b - 1].0;
                    assert(table[0].0 != table[m + 1].0);
                }
            } else {
                assert(t2[a] == r2[a - 1]);
                assert(t2[b] == r2[b - 1]);
            }
        }
    }
}

/// `set_spec` updates the first entry named `token`.
proof fn lemma_set_spec_at(table: TokenTable, token: Seq<char>, value: Seq<char>, i: int)
    requires
        0 <= i < table.len(),
        table[i].0 == token,
        forall|k: int| 0 <= k < i ==> (#[trigger] table[k]).0 != token,
    ensures
        set_spec(table, token, value) == table.update(i, (token, value)),
    decreases table.len(),
{
    if i > 0 {
        let rest = table.drop_first();
        assert forall|k: int| 0 <= k < i - 1 implies (#[trigger] rest[k]).0 != token by {
            assert(rest[k] == table[k + 1]);
        }
        lemma_set_spec_at(rest, token, value, i - 1);
        assert(seq![table[0]] + rest.update(i - 1, (token, value)) =~= table.update(i, (token, value)));
    }
}

/// `set_spec` appends a token that the table does not hold.
proof fn lemma_set_spec_new(table: TokenTable, token: Seq<char>, value: Seq<char>)
    requires
        forall|k: int| 0 <= k < table.len() ==> (#[trigger] table[k]).0 != token,
    ensures
        set_spec(table, token, value) == table.push((token, value)),
    decreases table.len(),
{
    if table.len() > 0 {
        let rest = table.drop_first();
        assert forall|k: int| 0 <= k < rest.len() implies (#[trigger] rest[k]).0 != token by {
            assert(rest[k] == table[k + 1]);
        }
        lemma_set_spec_new(rest, token, value);
        assert(seq![table[0]] + rest.push((token, value)) =~= table.push((token, value)));
    }
}

/// The tokens that `TokenResolver::with_defaults` sets, in order: the
/// install directory, the app name (spaces replaced with hyphens), then the
/// well-known locations of the platform, each from the environment where it
/// is given and otherwise a fixed fallback.
pub open spec fn default_tokens(
    app_name: Seq<char>,
    install_dir: Seq<char>,
    platform: Platform,
    host: HostPaths,
) -> TokenTable {
    let base = seq![
        ("install_dir"@, install_dir),
        ("app_name"@, replace_char_spec(app_name, ' ', '-')),
    ];
    match platform {
        Platform::Windows => base + seq![
            ("program_files"@, or_default(host.program_files, "C:\\Program Files"@)),
            ("app_data"@, or_default(host.app_data, "C:\\Users\\Default\\AppData\\Roaming"@)),
            ("local_app_data"@, or_default(host.local_app_data, "C:\\Users\\Default\\AppData\\Local"@)),
            ("temp"@, or_default(host.temp, "C:\\Windows\\Temp"@)),
        ],
        Platform::MacOs => {
            let home = or_default(host.home, "/Users/user"@);
            base + seq![
                ("home"@, home),
                ("app_data"@, home + "/Library/Application Support/"@ + app_name),
                ("temp"@, "/tmp"@),
                ("applications"@, "/Applications"@),
            ]
        },
        Platform::Linux => {
            let home = or_default(host.home, "/home/user"@);
            base + seq![
                ("home"@, home),
                ("app_data"@, home + "/.config/"@ + app_name),
                ("temp"@, "/tmp"@),
            ]
        },
        Platform::Other => base,
    }
}

/// Resolving a string that holds no `{` changes nothing.
pub proof fn lemma_resolve_without_braces(s: Seq<char>, table: TokenTable)
    requires
        forall|k: int| 0 <= k < s.len() ==> s[k] != '{',
    ensures
        resolve_spec(s, table) == s,
    decreases table.len(),
{
    if table.len() > 0 {
        lemma_replace_all_absent(s, brace(table[0].0), table[0].1);
        lemma_resolve_without_braces(s, table.drop_first());
    }
}

/// `{token}` resolves to the value of `token` in a table that holds only it.
pub proof fn lemma_resolve_single(token: Seq<char>, value: Seq<char>)
    ensures
        resolve_spec(brace(token), seq![(token, value)]) == value,
{
    let b = brace(token);
    assert(matches_at(b, 0, b));
    assert(replace_from(b, b, value, b.len() as int) =~= Seq::<char>::empty());
    assert(replace_all(b, b, value) =~= value);
    let t = seq![(token, value)];
    assert(t.drop_first() =~= Seq::<(Seq<char>, Seq<char>)>::empty());
    assert(resolve_spec(value, t.drop_first()) == value);
    assert(resolve_spec(b, t) == resolve_spec(replace_all(b, brace(t[0].0), t[0].1), t.drop_first()));
}

// ─────────────────────────────────────────────
//  Resolving all tokens at once
// ─────────────────────────────────────────────

/// `c` is `{` or `}`.
pub open spec fn is_brace(c: char) -> bool {
    c == '{' || c == '}'
}

/// `s` holds no `{` and no `}`.
pub open spec fn brace_free(s: Seq<char>) -> bool {
    forall|k: int| 0 <= k < s.len() ==> !is_brace(#[trigger] s[k])
}

/// Every token name and every value of `table` is free of braces.
pub open spec fn plain_table(table: TokenTable) -> bool {
    forall|i: int| 0 <= i < table.len() ==> brace_free(#[trigger] table[i].0) && brace_free(table[i].1)
}

/// Reading `s`, no `{` opens while another is open (not yet closed by a
/// `}`); `open` tells whether one is open where `s` starts.
pub open spec fn braces_flat(s: Seq<char>, open: bool) -> bool
    decreases s.len(),
{
    if s.len() == 0 {
        true
    } else if s[0] == '{' {
        !open && braces_flat(s.drop_first(), true)
    } else if s[0] == '}' {
        braces_flat(s.drop_first(), false)
    } else {
        braces_flat(s.drop_first(), open)
    }
}

/// The position of the first `}` in `s`, or its length where it has none.
pub open spec fn close_index(s: Seq<char>) -> nat
    decreases s.len(),
{
    if s.len() == 0 {
        0
    } else if s[0] == '}' {
        0
    } else {
        1 + close_index(s.drop_first())
    }
}

/// The token name that `s` opens with: the text between a leading `{` and
/// the first `}` after it.
pub open spec fn key_at(s: Seq<char>) -> Option<Seq<char>> {
    if s.len() > 0 && s[0] == '{' && close_index(s.drop_first()) < s.len() - 1 {
        Some(s.drop_first().take(close_index(s.drop_first()) as int))
    } else {
        None
    }
}

/// `s` with each `{token}` whose token the table sets replaced by the value
/// the table gives that token, all at once, reading from the left.
pub open spec fn resolve_at_once(s: Seq<char>, table: TokenTable) -> Seq<char>
    decreases s.len(),
{
    if s.len() == 0 {
        s
    } else {
        match key_at(s) {
            Some(k) => match token_value(table, k) {
                Some(v) => {
                    proof {
                        lemma_close_index(s.drop_first());
                    }
                    v + resolve_at_once(s.skip(k.len() + 2int), table)
                },
                None => seq![s[0]] + resolve_at_once(s.drop_first(), table),
            },
            None => seq![s[0]] + resolve_at_once(s.drop_first(), table),
        }
    }
}

/// Where the first `}` of `w` is.
pub proof fn lemma_close_index(w: Seq<char>)
    ensures
        close_index(w) <= w.len(),
        close_index(w) < w.len() ==> w[close_index(w) as int] == '}',
        forall|m: int| 0 <= m < close_index(w) ==> w[m] != '}',
    decreases w.len(),
{
    if w.len() > 0 && w[0] != '}' {
        lemma_close_index(w.drop_first());
        assert forall|m: int| 0 <= m < close_index(w) implies w[m] != '}' by {
            if m > 0 {
                assert(w[m] == w.drop_first()[m - 1]);
            }
        }
    }
}

/// The first `}` is at `c` where `w[c]` is one and none comes before.
proof fn lemma_close_index_at(w: Seq<char>, c: int)
    requires
        0 <= c < w.len(),
        w[c] == '}',
        forall|m: int| 0 <= m < c ==> w[m] != '}',
    ensures
        close_index(w) == c,
    decreases c,
{
    if c > 0 {
        assert(w[0] != '}');
        assert forall|m: int| 0 <= m < c - 1 implies w.drop_first()[m] != '}' by {
            assert(w.drop_first()[m] == w[m + 1]);
        }
        lemma_close_index_at(w.drop_first(), c - 1);
    }
}

/// `s` begins with `{k}` for a brace-free `k` exactly when `k` is the token
/// name it opens with.
proof fn lemma_key_at_matches(s: Seq<char>, k: Seq<char>)
    ensures
        key_at(s) == Some(k) ==> matches_at(s, 0, brace(k)),
        brace_free(k) && matches_at(s, 0, brace(k)) ==> key_at(s) == Some(k),
{
    let w = s.drop_first();
    let b = brace(k);
    if key_at(s) == Some(k) {
        lemma_close_index(w);
        let c = close_index(w) as int;
        assert forall|j: int| 0 <= j < b.len() implies #[trigger] s[0 + j] == b[j] by {
            if j == 0 {
            } else if j <= c {
                assert(s[j] == w[j - 1]);
                assert(k[j - 1] == w[j - 1]);
            } else {
                assert(s[j] == w[c]);
            }
        }
    }
    if brace_free(k) && matches_at(s, 0, b) {
        assert forall|m: int| 0 <= m < k.len() implies w[m] != '}' by {
            assert(s[0int + (m + 1)] == b[m + 1]);
            assert(b[m + 1] == k[m]);
            assert(!is_brace(k[m]));
        }
        assert(w[k.len() as int] == '}') by {
            assert(s[0int + (k.len() + 1int)] == b[k.len() + 1int]);
        }
        assert forall|m: int| 0 <= m < k.len() implies w[m] == k[m] by {
            assert(s[0int + (m + 1)] == b[m + 1]);
        }
        lemma_close_index_at(w, k.len() as int);
        assert(w.take(k.len() as int) =~= k);
        assert(s[0int + 0int] == b[0]);
    }
}

/// A brace-free text in front is kept as it is.
proof fn lemma_at_once_plain_prefix(p: Seq<char>, x: Seq<char>, table: TokenTable)
    requires
        brace_free(p),
    ensures
        resolve_at_once(p + x, table) == p + resolve_at_once(x, table),
        forall|o: bool| braces_flat(p + x, o) == braces_flat(x, o),
    decreases p.len(),
{
    if p.len() > 0 {
        let px = p + x;
        assert(!is_brace(p[0]));
        assert(px[0] == p[0]);
        assert(px.drop_first() =~= p.drop_first() + x);
        lemma_at_once_plain_prefix(p.drop_first(), x, table);
        assert(seq![p[0]] + (p.drop_first() + resolve_at_once(x, table)) =~= p + resolve_at_once(x, table));
    } else {
        assert(p + x =~= x);
    }
}

/// Inside an open brace, nothing opens before the first `}`, and after it
/// the text is flat again.
proof fn lemma_flat_open(w: Seq<char>)
    requires
        braces_flat(w, true),
    ensures
        forall|m: int| 0 <= m < close_index(w) ==> w[m] != '{',
        close_index(w) < w.len() ==> braces_flat(w.skip(close_index(w) + 1int), false),
    decreases w.len(),
{
    lemma_close_index(w);
    if w.len() > 0 && w[0] != '}' {
        lemma_flat_open(w.drop_first());
        assert forall|m: int| 0 <= m < close_index(w) implies w[m] != '{' by {
            if m > 0 {
                assert(w[m] == w.drop_first()[m - 1]);
            }
        }
        if close_index(w) < w.len() {
            assert(w.drop_first().skip(close_index(w.drop_first()) + 1int) =~= w.skip(close_index(w) + 1int));
        }
    } else if w.len() > 0 {
        assert(w.skip(1) =~= w.drop_first());
    }
}

/// After a leading `{token}`, a flat text is flat with no brace open.
proof fn lemma_flat_after_key(s: Seq<char>, o: bool)
    requires
        braces_flat(s, o),
        key_at(s) is Some,
    ensures
        !o,
        braces_flat(s.skip(key_at(s)->0.len() + 2int), false),
{
    let w = s.drop_first();
    lemma_flat_open(w);
    lemma_close_index(w);
    assert(w.skip(close_index(w) + 1int) =~= s.skip(key_at(s)->0.len() + 2int));
}

/// Replacing `{k}` by a brace-free value keeps a text flat.
proof fn lemma_flat_replace(s: Seq<char>, o: bool, k: Seq<char>, v: Seq<char>)
    requires
        braces_flat(s, o),
        brace_free(k),
        brace_free(v),
    ensures
        braces_flat(replace_all(s, brace(k), v), o),
    decreases s.len(),
{
    let b = brace(k);
    lemma_replace_all_step(s, b, v);
    if s.len() > 0 {
        if matches_at(s, 0, b) {
            lemma_key_at_matches(s, k);
            lemma_flat_after_key(s, o);
            lemma_flat_replace(s.skip(b.len() as int), false, k, v);
            lemma_at_once_plain_prefix(v, replace_all(s.skip(b.len() as int), b, v), seq![]);
        } else {
            let o2 = if s[0] == '{' { true } else if s[0] == '}' { false } else { o };
            lemma_flat_replace(s.drop_first(), o2, k, v);
            let r = seq![s[0]] + replace_all(s.drop_first(), b, v);
            assert(r[0] == s[0]);
            assert(r.drop_first() =~= replace_all(s.drop_first(), b, v));
        }
    }
}

/// Replacing `{k}` first and then resolving the rest of a table at once is
/// resolving the whole table at once.
proof fn lemma_at_once_step(s: Seq<char>, o: bool, k0: Seq<char>, v0: Seq<char>, rest: TokenTable)
    requires
        braces_flat(s, o),
        brace_free(k0),
        brace_free(v0),
    ensures
        resolve_at_once(replace_all(s, brace(k0), v0), rest) == resolve_at_once(s, seq![(k0, v0)] + rest),
    decreases s.len(),
{
    let t = seq![(k0, v0)] + rest;
    let p = brace(k0);
    assert(t[0] == (k0, v0));
    assert(t.drop_first() =~= rest);
    lemma_replace_all_step(s, p, v0);
    if s.len() == 0 {
        return;
    }
    let w = s.drop_first();
    if matches_at(s, 0, p) {
        lemma_key_at_matches(s, k0);
        lemma_flat_after_key(s, o);
        let tail = s.skip(p.len() as int);
        lemma_at_once_step(tail, false, k0, v0, rest);
        lemma_at_once_plain_prefix(v0, replace_all(tail, p, v0), rest);
        return;
    }
    lemma_key_at_matches(s, k0);
    let r = replace_all(w, p, v0);
    let s2 = seq![s[0]] + r;
    assert(s2[0] == s[0]);
    assert(s2.drop_first() =~= r);
    let o2 = if s[0] == '{' { true } else if s[0] == '}' { false } else { o };
    if s[0] != '{' {
        lemma_at_once_step(w, o2, k0, v0, rest);
        return;
    }
    lemma_flat_open(w);
    lemma_close_index(w);
    let c = close_index(w) as int;
    if c < w.len() {
        lemma_replace_all_keeps_prefix(w, p, v0, c + 1);
        let r2 = replace_all(w.skip(c + 1), p, v0);
        assert(r =~= w.take(c + 1) + r2);
        assert forall|m: int| 0 <= m < c implies r[m] != '}' by {
            assert(r[m] == w[m]);
        }
        lemma_close_index_at(r, c);
        assert(r.take(c) =~= w.take(c));
        let k = w.take(c);
        assert(key_at(s) == Some(k));
        assert(key_at(s2) == Some(k));
        assert(k != k0);
        assert(token_value(t, k) == token_value(rest, k));
        assert(s2.skip(c + 2) =~= r2);
        assert(s.skip(c + 2) =~= w.skip(c + 1));
        lemma_at_once_step(w.skip(c + 1), false, k0, v0, rest);
        lemma_at_once_step(w, true, k0, v0, rest);
    } else {
        assert forall|m: int| 0 <= m < w.len() implies w[m] != p[0] by {}
        lemma_replace_all_absent(w, p, v0);
        assert(s2 =~= s);
        assert(key_at(s) is None);
        lemma_at_once_step(w, true, k0, v0, rest);
    }
}

/// With no token set, resolving at once changes nothing.
proof fn lemma_at_once_empty(s: Seq<char>)
    ensures
        resolve_at_once(s, Seq::empty()) == s,
    decreases s.len(),
{
    if s.len() > 0 {
        lemma_at_once_empty(s.drop_first());
        assert(seq![s[0]] + s.drop_first() =~= s);
    }
}

/// Resolving replaces every `{token}` that the table sets by the value the
/// table gives that token, all at once: where token names and values hold
/// no braces and no `{` opens inside another, the one-token-after-another
/// replacement is the same as the simultaneous one.
pub proof fn lemma_resolve_at_once(s: Seq<char>, table: TokenTable)
    requires
        plain_table(table),
        braces_flat(s, false),
    ensures
        resolve_spec(s, table) == resolve_at_once(s, table),
    decreases table.len(),
{
    if table.len() == 0 {
        lemma_at_once_empty(s);
        assert(table =~= Seq::<(Seq<char>, Seq<char>)>::empty());
    } else {
        let (k0, v0) = table[0];
        let rest = table.drop_first();
        assert(brace_free(k0) && brace_free(v0));
        assert forall|i: int| 0 <= i < rest.len() implies brace_free(#[trigger] rest[i].0) && brace_free(rest[i].1) by {
            assert(rest[i] == table[i + 1]);
        }
        lemma_flat_replace(s, false, k0, v0);
        lemma_resolve_at_once(replace_all(s, brace(k0), v0), rest);
        lemma_at_once_step(s, false, k0, v0, rest);
        assert(seq![(k0, v0)] + rest =~= table);
    }
}

proof fn lemma_at_once_same_values(s: Seq<char>, t1: TokenTable, t2: TokenTable)
    requires
        forall|k: Seq<char>| token_value(t1, k) == token_value(t2, k),
    ensures
        resolve_at_once(s, t1) == resolve_at_once(s, t2),
    decreases s.len(),
{
    if s.len() > 0 {
        lemma_close_index(s.drop_first());
        lemma_at_once_same_values(s.drop_first(), t1, t2);
        match key_at(s) {
            Some(k) => {
                assert(token_value(t1, k) == token_value(t2, k));
                lemma_at_once_same_values(s.skip(k.len() + 2int), t1, t2);
            },
            None => {},
        }
    }
}

/// Resolving does not depend on the order in which tokens were set: two
/// tables that give every token the same value resolve a text alike, where
/// token names and values hold no braces and no `{` opens inside another.
pub proof fn lemma_resolve_order_free(s: Seq<char>, t1: TokenTable, t2: TokenTable)
    requires
        plain_table(t1),
        plain_table(t2),
        forall|k: Seq<char>| token_value(t1, k) == token_value(t2, k),
        braces_flat(s, false),
    ensures
        resolve_spec(s, t1) == resolve_spec(s, t2),
{
    lemma_resolve_at_once(s, t1);
    lemma_resolve_at_once(s, t2);
    lemma_at_once_same_values(s, t1, t2);
}

proof fn lemma_token_value_none(table: TokenTable, token: Seq<char>)
    requires
        forall|i: int| 0 <= i < table.len() ==> (#[trigger] table[i]).0 != token,
    ensures
        token_value(table, token) is None,
    decreases table.len(),
{
    if table.len() > 0 {
        assert(table[0].0 != token);
        assert forall|i: int| 0 <= i < table.drop_first().len() implies (#[trigger] table.drop_first()[i]).0 != token by {
            assert(table.drop_first()[i] == table[i + 1]);
        }
        lemma_token_value_none(table.drop_first(), token);
    }
}

/// Setting a token that the table does not hold adds it at the end.
pub proof fn lemma_set_new_token(table: TokenTable, token: Seq<char>, value: Seq<char>)
    requires
        token_value(table, token) is None,
    ensures
        set_spec(table, token, value) == table.push((token, value)),
    decreases table.len(),
{
    if table.len() == 0 {
        assert(seq![(token, value)] =~= table.push((token, value)));
    } else {
        lemma_set_new_token(table.drop_first(), token, value);
        assert(seq![table[0]] + table.drop_first().push((token, value)) =~= table.push((token, value)));
    }
}

/// Replacing `{k}` leaves `{a}` as it is where `a` holds no brace and `k`
/// is another name.
proof fn lemma_replace_other_token(a: Seq<char>, k: Seq<char>, vk: Seq<char>)
    requires
        brace_free(a),
        k != a,
    ensures
        replace_all(brace(a), brace(k), vk) == brace(a),
{
    let ba = brace(a);
    let bk = brace(k);
    assert(!matches_at(ba, 0, bk)) by {
        if matches_at(ba, 0, bk) {
            assert(ba[0int + (k.len() + 1int)] == bk[k.len() + 1int]);
            if k.len() < a.len() {
                assert(ba[k.len() + 1int] == a[k.len() as int]);
                assert(!is_brace(a[k.len() as int]));
            }
            assert(k.len() == a.len());
            assert forall|m: int| 0 <= m < k.len() implies k[m] == a[m] by {
                assert(ba[0int + (m + 1)] == bk[m + 1]);
            }
            assert(k =~= a);
        }
    }
    lemma_replace_all_step(ba, bk, vk);
    let tail = ba.drop_first();
    assert forall|m: int| 0 <= m < tail.len() implies tail[m] != bk[0] by {
        if m < a.len() {
            assert(tail[m] == a[m]);
            assert(!is_brace(a[m]));
        }
    }
    lemma_replace_all_absent(tail, bk, vk);
    assert(seq![ba[0]] + tail =~= ba);
}

/// `{a}` resolves to the value of `a` where `a` holds no brace and is set
/// after every other token.
pub proof fn lemma_resolve_last_token(a: Seq<char>, value: Seq<char>, table: TokenTable)
    requires
        brace_free(a),
        token_value(table, a) is None,
    ensures
        resolve_spec(brace(a), table.push((a, value))) == value,
    decreases table.len(),
{
    let t = table.push((a, value));
    if table.len() == 0 {
        assert(t =~= seq![(a, value)]);
        lemma_resolve_single(a, value);
    } else {
        let (k, vk) = table[0];
        lemma_replace_other_token(a, k, vk);
        assert(t[0] == table[0]);
        assert(t.drop_first() =~= table.drop_first().push((a, value)));
        lemma_resolve_last_token(a, value, table.drop_first());
    }
}

/// `{a}` resolves to the value the table gives `a`, where `a` holds no
/// brace and that value holds no `{`: tokens before it leave `{a}` alone,
/// and tokens after it find nothing to replace.
pub proof fn lemma_resolve_one_token(a: Seq<char>, table: TokenTable)
    requires
        brace_free(a),
        token_value(table, a) is Some,
        forall|m: int| 0 <= m < token_value(table, a)->0.len() ==> token_value(table, a)->0[m] != '{',
    ensures
        resolve_spec(brace(a), table) == token_value(table, a)->0,
    decreases table.len(),
{
    let (k, vk) = table[0];
    let rest = table.drop_first();
    if k == a {
        assert(token_value(table, a) == Some(vk));
        let ba = brace(a);
        lemma_replace_all_step(ba, ba, vk);
        assert(matches_at(ba, 0, ba));
        assert(ba.skip(ba.len() as int) =~= Seq::<char>::empty());
        lemma_replace_all_step(ba.skip(ba.len() as int), ba, vk);
        assert(vk + Seq::<char>::empty() =~= vk);
        assert forall|m: int| 0 <= m < vk.len() implies vk[m] != '{' by {
            assert(token_value(table, a)->0[m] == vk[m]);
        }
        lemma_resolve_without_braces(vk, rest);
    } else {
        lemma_replace_other_token(a, k, vk);
        lemma_resolve_one_token(a, rest);
    }
}

/// The default tokens do not set `app_version`.
pub proof fn lemma_default_tokens_lack_app_version(
    app_name: Seq<char>,
    install_dir: Seq<char>,
    platform: Platform,
    host: HostPaths,
)
    ensures
        token_value(default_tokens(app_name, install_dir, platform, host), "app_version"@) is None,
{
    reveal_strlit("app_version");
    reveal_strlit("install_dir");
    reveal_strlit("app_name");
    reveal_strlit("program_files");
    reveal_strlit("app_data");
    reveal_strlit("local_app_data");
    reveal_strlit("temp");
    reveal_strlit("home");
    reveal_strlit("applications");
    let av = "app_version"@;
    assert(av.len() == 11);
    assert("install_dir"@[0] != av[0]);
    assert("install_dir"@ != av);
    assert("app_name"@.len() != av.len());
    assert("program_files"@.len() != av.len());
    assert("app_data"@.len() != av.len());
    assert("local_app_data"@.len() != av.len());
    assert("temp"@.len() != av.len());
    assert("home"@.len() != av.len());
    assert("applications"@.len() != av.len());
    let t = default_tokens(app_name, install_dir, platform, host);
    assert forall|i: int| 0 <= i < t.len() implies (#[trigger] t[i]).0 != av by {}
    lemma_token_value_none(t, av);
}

/// Where the `index`-th file of a bundle whose manifest lists `entries`
/// goes, if that file is stored under `archive_path`: the destination of
/// the manifest's `index`-th entry with the tokens resolved.
pub open spec fn placement(entries: Seq<BundleEntry>, index: int, archive_path: Seq<char>, tokens: TokenTable) -> Option<
    Seq<char>,
> {
    if 0 <= index < entries.len() && entries[index].archive_path@ == archive_path {
        Some(resolve_spec(entries[index].destination@, tokens))
    } else {
        None
    }
}

/// A bundle puts each file where the project says: where the manifest
/// records the collected files, extraction places the `i`-th file, stored
/// under its archive path, at its own destination with the tokens resolved,
/// and it expects exactly as many files as were collected.
pub proof fn lemma_bundled_files_land_at_destinations(
    entries: Seq<BundleEntry>,
    files: Seq<CollectedFile>,
    tokens: TokenTable,
)
    requires
        records_files(entries, files),
    ensures
        entries.len() == files.len(),
        forall|i: int| 0 <= i < files.len() ==> #[trigger] placement(entries, i, files[i].archive_path@, tokens)
            == Some(resolve_spec(files[i].destination@, tokens)),
{
    assert forall|i: int| 0 <= i < files.len() implies #[trigger] placement(entries, i, files[i].archive_path@, tokens)
        == Some(resolve_spec(files[i].destination@, tokens)) by {
        assert(entries[i].archive_path@ == files[i].archive_path@);
    }
}

/// `s` holds no `{`.
pub open spec fn no_open_brace(s: Seq<char>) -> bool {
    forall|m: int| 0 <= m < s.len() ==> s[m] != '{'
}

/// A directory read from the environment, where there is one, holds no `{`.
pub open spec fn host_value_plain(o: Option<String>) -> bool {
    match o {
        Some(s) => no_open_brace(s@),
        None => true,
    }
}

/// `{k}` resolves to the value of the `i`-th token, where that token is the
/// first named `k`, `k` holds no brace and the value holds no `{`.
proof fn lemma_resolve_token_at(table: TokenTable, k: Seq<char>, i: int)
    requires
        0 <= i < table.len(),
        table[i].0 == k,
        forall|j: int| 0 <= j < i ==> (#[trigger] table[j]).0 != k,
        brace_free(k),
        no_open_brace(table[i].1),
    ensures
        resolve_spec(brace(k), table) == table[i].1,
    decreases i,
{
    if i == 0 {
        assert(token_value(table, k) == Some(table[0].1));
    } else {
        let rest = table.drop_first();
        assert forall|j: int| 0 <= j < i - 1 implies (#[trigger] rest[j]).0 != k by {
            assert(rest[j] == table[j + 1]);
        }
        assert(rest[i - 1] == table[i]);
        lemma_resolve_token_at(rest, k, i - 1);
        lemma_replace_other_token(k, table[0].0, table[0].1);
        return;
    }
    lemma_resolve_one_token(k, table);
}

proof fn lemma_windows_locations(app_name: Seq<char>, install_dir: Seq<char>, host: HostPaths)
    requires
        host_value_plain(host.program_files),
        host_value_plain(host.app_data),
        host_value_plain(host.local_app_data),
        host_value_plain(host.temp),
    ensures
        ({
            let t = default_tokens(app_name, install_dir, Platform::Windows, host);
            &&& resolve_spec("{program_files}"@, t) == or_default(host.program_files, "C:\\Program Files"@)
            &&& resolve_spec("{app_data}"@, t) == or_default(host.app_data, "C:\\Users\\Default\\AppData\\Roaming"@)
            &&& resolve_spec("{local_app_data}"@, t) == or_default(
                host.local_app_data,
                "C:\\Users\\Default\\AppData\\Local"@,
            )
            &&& resolve_spec("{temp}"@, t) == or_default(host.temp, "C:\\Windows\\Temp"@)
        }),
{
    reveal_strlit("install_dir");
    reveal_strlit("app_name");
    reveal_strlit("program_files");
    reveal_strlit("app_data");
    reveal_strlit("local_app_data");
    reveal_strlit("temp");
    reveal_strlit("{program_files}");
    reveal_strlit("{app_data}");
    reveal_strlit("{local_app_data}");
    reveal_strlit("{temp}");
    reveal_strlit("C:\\Program Files");
    reveal_strlit("C:\\Users\\Default\\AppData\\Roaming");
    reveal_strlit("C:\\Users\\Default\\AppData\\Local");
    reveal_strlit("C:\\Windows\\Temp");
    let t = default_tokens(app_name, install_dir, Platform::Windows, host);
    assert("app_name"@[4] != "app_data"@[4]);
    assert(brace("program_files"@) =~= "{program_files}"@);
    assert(brace("app_data"@) =~= "{app_data}"@);
    assert(brace("local_app_data"@) =~= "{local_app_data}"@);
    assert(brace("temp"@) =~= "{temp}"@);
    assert forall|j: int| 0 <= j < 2 implies (#[trigger] t[j]).0 != "program_files"@ by {}
    lemma_resolve_token_at(t, "program_files"@, 2);
    assert forall|j: int| 0 <= j < 3 implies (#[trigger] t[j]).0 != "app_data"@ by {}
    lemma_resolve_token_at(t, "app_data"@, 3);
    assert forall|j: int| 0 <= j < 4 implies (#[trigger] t[j]).0 != "local_app_data"@ by {}
    lemma_resolve_token_at(t, "local_app_data"@, 4);
    assert forall|j: int| 0 <= j < 5 implies (#[trigger] t[j]).0 != "temp"@ by {}
    lemma_resolve_token_at(t, "temp"@, 5);
}

proof fn lemma_linux_locations(app_name: Seq<char>, install_dir: Seq<char>, host: HostPaths)
    requires
        no_open_brace(app_name),
        host_value_plain(host.home),
    ensures
        ({
            let t = default_tokens(app_name, install_dir, Platform::Linux, host);
            let h = or_default(host.home, "/home/user"@);
            &&& resolve_spec("{home}"@, t) == h
            &&& resolve_spec("{app_data}"@, t) == h + "/.config/"@ + app_name
            &&& resolve_spec("{temp}"@, t) == "/tmp"@
        }),
{
    reveal_strlit("install_dir");
    reveal_strlit("app_name");
    reveal_strlit("home");
    reveal_strlit("app_data");
    reveal_strlit("temp");
    reveal_strlit("{home}");
    reveal_strlit("{app_data}");
    reveal_strlit("{temp}");
    reveal_strlit("/home/user");
    reveal_strlit("/.config/");
    reveal_strlit("/tmp");
    let t = default_tokens(app_name, install_dir, Platform::Linux, host);
    let h = or_default(host.home, "/home/user"@);
    assert("app_name"@[4] != "app_data"@[4]);
    assert(brace("home"@) =~= "{home}"@);
    assert(brace("app_data"@) =~= "{app_data}"@);
    assert(brace("temp"@) =~= "{temp}"@);
    let ad = h + "/.config/"@ + app_name;
    assert forall|m: int| 0 <= m < ad.len() implies ad[m] != '{' by {
        if m < h.len() {
            assert(ad[m] == h[m]);
        } else if m < h.len() + 9 {
            assert(ad[m] == "/.config/"@[m - h.len()]);
        } else {
            assert(ad[m] == app_name[m - h.len() - 9]);
        }
    }
    assert forall|j: int| 0 <= j < 2 implies (#[trigger] t[j]).0 != "home"@ by {}
    lemma_resolve_token_at(t, "home"@, 2);
    assert forall|j: int| 0 <= j < 3 implies (#[trigger] t[j]).0 != "app_data"@ by {}
    lemma_resolve_token_at(t, "app_data"@, 3);
    assert("home"@[0] != "temp"@[0]);
    assert forall|j: int| 0 <= j < 4 implies (#[trigger] t[j]).0 != "temp"@ by {}
    lemma_resolve_token_at(t, "temp"@, 4);
}

proof fn lemma_macos_locations(app_name: Seq<char>, install_dir: Seq<char>, host: HostPaths)
    requires
        no_open_brace(app_name),
        host_value_plain(host.home),
    ensures
        ({
            let t = default_tokens(app_name, install_dir, Platform::MacOs, host);
            let h = or_default(host.home, "/Users/user"@);
            &&& resolve_spec("{home}"@, t) == h
            &&& resolve_spec("{app_data}"@, t) == h + "/Library/Application Support/"@ + app_name
            &&& resolve_spec("{temp}"@, t) == "/tmp"@
            &&& resolve_spec("{applications}"@, t) == "/Applications"@
        }),
{
    reveal_strlit("install_dir");
    reveal_strlit("app_name");
    reveal_strlit("home");
    reveal_strlit("app_data");
    reveal_strlit("temp");
    reveal_strlit("applications");
    reveal_strlit("{home}");
    reveal_strlit("{app_data}");
    reveal_strlit("{temp}");
    reveal_strlit("{applications}");
    reveal_strlit("/Users/user");
    reveal_strlit("/Library/Application Support/");
    reveal_strlit("/tmp");
    reveal_strlit("/Applications");
    let t = default_tokens(app_name, install_dir, Platform::MacOs, host);
    let h = or_default(host.home, "/Users/user"@);
    assert("app_name"@[4] != "app_data"@[4]);
    assert(brace("home"@) =~= "{home}"@);
    assert(brace("app_data"@) =~= "{app_data}"@);
    assert(brace("temp"@) =~= "{temp}"@);
    assert(brace("applications"@) =~= "{applications}"@);
    let mid = "/Library/Application Support/"@;
    let ad = h + mid + app_name;
    assert forall|m: int| 0 <= m < ad.len() implies ad[m] != '{' by {
        if m < h.len() {
            assert(ad[m] == h[m]);
        } else if m < h.len() + mid.len() {
            assert(ad[m] == mid[m - h.len()]);
        } else {
            assert(ad[m] == app_name[m - h.len() - mid.len()]);
        }
    }
    assert forall|j: int| 0 <= j < 2 implies (#[trigger] t[j]).0 != "home"@ by {}
    lemma_resolve_token_at(t, "home"@, 2);
    assert forall|j: int| 0 <= j < 3 implies (#[trigger] t[j]).0 != "app_data"@ by {}
    lemma_resolve_token_at(t, "app_data"@, 3);
    assert("home"@[0] != "temp"@[0]);
    assert forall|j: int| 0 <= j < 4 implies (#[trigger] t[j]).0 != "temp"@ by {}
    lemma_resolve_token_at(t, "temp"@, 4);
    assert forall|j: int| 0 <= j < 5 implies (#[trigger] t[j]).0 != "applications"@ by {}
    lemma_resolve_token_at(t, "applications"@, 5);
}

/// On every platform `{install_dir}` resolves to the install directory and
/// `{app_name}` to the app name with each space turned into a hyphen,
/// where neither holds a `{`.
pub proof fn lemma_default_base_tokens_resolve(
    app_name: Seq<char>,
    install_dir: Seq<char>,
    platform: Platform,
    host: HostPaths,
)
    requires
        no_open_brace(app_name),
        no_open_brace(install_dir),
    ensures
        resolve_spec("{install_dir}"@, default_tokens(app_name, install_dir, platform, host)) == install_dir,
        resolve_spec("{app_name}"@, default_tokens(app_name, install_dir, platform, host)) == app_name.map_values(
            |c: char| if c == ' ' { '-' } else { c },
        ),
{
    reveal_strlit("install_dir");
    reveal_strlit("app_name");
    reveal_strlit("{install_dir}");
    reveal_strlit("{app_name}");
    let t = default_tokens(app_name, install_dir, platform, host);
    let hy = replace_char_spec(app_name, ' ', '-');
    assert(hy =~= app_name.map_values(|c: char| if c == ' ' { '-' } else { c }));
    assert(t[0] == ("install_dir"@, install_dir));
    assert(t[1] == ("app_name"@, hy));
    assert(brace("install_dir"@) =~= "{install_dir}"@);
    assert(brace("app_name"@) =~= "{app_name}"@);
    assert(no_open_brace(hy)) by {
        assert forall|m: int| 0 <= m < hy.len() implies hy[m] != '{' by {
            assert(hy[m] == (if app_name[m] == ' ' { '-' } else { app_name[m] }));
        }
    }
    assert forall|j: int| 0 <= j < 0 implies (#[trigger] t[j]).0 != "install_dir"@ by {}
    lemma_resolve_token_at(t, "install_dir"@, 0);
    assert forall|j: int| 0 <= j < 1 implies (#[trigger] t[j]).0 != "app_name"@ by {}
    lemma_resolve_token_at(t, "app_name"@, 1);
}

/// What the location tokens of the defaults resolve to, whatever the
/// install directory, where the app name and the directories read from the
/// environment hold no `{`: on Windows each location is the environment's
/// directory or its fixed fallback; on Linux and macOS `{home}` is the home
/// directory (or its fallback), `{app_data}` the app's directory under it,
/// and `{temp}` is `/tmp`; on macOS `{applications}` is `/Applications`.
pub proof fn lemma_default_locations_resolve(app_name: Seq<char>, install_dir: Seq<char>, host: HostPaths)
    requires
        no_open_brace(app_name),
        host_value_plain(host.program_files),
        host_value_plain(host.app_data),
        host_value_plain(host.local_app_data),
        host_value_plain(host.temp),
        host_value_plain(host.home),
    ensures
        ({
            let t = default_tokens(app_name, install_dir, Platform::Windows, host);
            &&& resolve_spec("{program_files}"@, t) == or_default(host.program_files, "C:\\Program Files"@)
            &&& resolve_spec("{app_data}"@, t) == or_default(host.app_data, "C:\\Users\\Default\\AppData\\Roaming"@)
            &&& resolve_spec("{local_app_data}"@, t) == or_default(
                host.local_app_data,
                "C:\\Users\\Default\\AppData\\Local"@,
            )
            &&& resolve_spec("{temp}"@, t) == or_default(host.temp, "C:\\Windows\\Temp"@)
        }),
        ({
            let t = default_tokens(app_name, install_dir, Platform::Linux, host);
            let h = or_default(host.home, "/home/user"@);
            &&& resolve_spec("{home}"@, t) == h
            &&& resolve_spec("{app_data}"@, t) == h + "/.config/"@ + app_name
            &&& resolve_spec("{temp}"@, t) == "/tmp"@
        }),
        ({
            let t = default_tokens(app_name, install_dir, Platform::MacOs, host);
            let h = or_default(host.home, "/Users/user"@);
            &&& resolve_spec("{home}"@, t) == h
            &&& resolve_spec("{app_data}"@, t) == h + "/Library/Application Support/"@ + app_name
            &&& resolve_spec("{temp}"@, t) == "/tmp"@
            &&& resolve_spec("{applications}"@, t) == "/Applications"@
        }),
{
    lemma_windows_locations(app_name, install_dir, host);
    lemma_linux_locations(app_name, install_dir, host);
    lemma_macos_locations(app_name, install_dir, host);
}

fn opt_or(o: &Option<String>, default: &str) -> (r: String)
    ensures
        r@ == or_default(*o, default@),
{
    match o {
        Some(s) => s.clone(),
        None => String::from_str(default),
    }
}

proof fn lemma_default_tokens_distinct(
    app_name: Seq<char>,
    install_dir: Seq<char>,
    platform: Platform,
    host: HostPaths,
)
    ensures
        distinct_tokens(default_tokens(app_name, install_dir, platform, host)),
{
    reveal_strlit("install_dir");
    reveal_strlit("app_name");
    reveal_strlit("program_files");
    reveal_strlit("app_data");
    reveal_strlit("local_app_data");
    reveal_strlit("temp");
    reveal_strlit("home");
    reveal_strlit("applications");
    assert("app_data"@[4] != "app_name"@[4]);
    let t = default_tokens(app_name, install_dir, platform, host);
    assert forall|i: int, j: int| 0 <= i < j < t.len() implies #[trigger] t[i].0 != #[trigger] t[j].0 by {
        assert(t[i].0.len() != t[j].0.len() || t[i].0[4] != t[j].0[4] || t[i].0[0] != t[j].0[0]);
    }
}

/// Resolves path tokens like `{install_dir}` into real paths.
#[derive(Debug)]
pub struct TokenResolver {
    tokens: Vec<(String, String)>,
}

/// The view of a list of string pairs.
pub open spec fn pairs_view(v: Seq<(String, String)>) -> TokenTable {
    v.map_values(|p: (String, String)| (p.0@, p.1@))
}

impl View for TokenResolver {
    type V = TokenTable;

    closed spec fn view(&self) -> TokenTable {
        pairs_view(self.tokens@)
    }
}

impl Clone for TokenResolver {
    fn clone(&self) -> (r: Self)
        ensures
            r@ == self@,
    {
        let mut tokens: Vec<(String, String)> = Vec::new();
        let n = self.tokens.len();
        let mut i: usize = 0;
        while i < n
            invariant
                n == self.tokens@.len(),
                i <= n,
                pairs_view(tokens@) == pairs_view(self.tokens@).take(i as int),
            decreases n - i,
        {
            let a = self.tokens[i].0.clone();
            let b = self.tokens[i].1.clone();
            let ghost before = tokens@;
            tokens.push((a, b));
            assert(tokens@ == before.push((a, b)));
            assert(pairs_view(tokens@) =~= pairs_view(before).push((a@, b@)));
            i = i + 1;
            assert(pairs_view(tokens@) =~= pairs_view(self.tokens@).take(i as int));
        }
        assert(pairs_view(self.tokens@).take(n as int) =~= pairs_view(self.tokens@));
        TokenResolver { tokens }
    }
}

impl Default for TokenResolver {
    fn default() -> (r: Self)
        ensures
            r@ == Seq::<(Seq<char>, Seq<char>)>::empty(),
    {
        Self::new()
    }
}

impl TokenResolver {

    /// An empty resolver.
    pub fn new() -> (r: Self)
        ensures
            r@ == Seq::<(Seq<char>, Seq<char>)>::empty(),
            distinct_tokens(r@),
    {
        let r = TokenResolver { tokens: Vec::new() };
        assert(pairs_view(r.tokens@) =~= Seq::<(Seq<char>, Seq<char>)>::empty());
        r
    }

    /// Build a resolver pre-populated with the install directory, the app
    /// name and the well-known locations of `platform`.
    pub fn with_defaults(app_name: &str, install_dir: &str, platform: Platform, host: &HostPaths) -> (r: Self)
        ensures
            r@ == default_tokens(app_name@, install_dir@, platform, *host),
            distinct_tokens(r@),
    {
        let mut tokens: Vec<(String, String)> = Vec::new();
        tokens.push((String::from_str("install_dir"), String::from_str(install_dir)));
        tokens.push((String::from_str("app_name"), replace_char(app_name, ' ', '-')));
        match platform {
            Platform::Windows => {
                tokens.push((String::from_str("program_files"), opt_or(&host.program_files, "C:\\Program Files")));
                tokens.push((String::from_str("app_data"), opt_or(&host.app_data, "C:\\Users\\Default\\AppData\\Roaming")));
                tokens.push((String::from_str("local_app_data"), opt_or(&host.local_app_data, "C:\\Users\\Default\\AppData\\Local")));
                tokens.push((String::from_str("temp"), opt_or(&host.temp, "C:\\Windows\\Temp")));
            },
            Platform::MacOs => {
                let home = opt_or(&host.home, "/Users/user");
                let app_data = concat3(home.as_str(), "/Library/Application Support/", app_name);
                tokens.push((String::from_str("home"), home));
                tokens.push((String::from_str("app_data"), app_data));
                tokens.push((String::from_str("temp"), String::from_str("/tmp")));
                tokens.push((String::from_str("applications"), String::from_str("/Applications")));
            },
            Platform::Linux => {
                let home = opt_or(&host.home, "/home/user");
                let app_data = concat3(home.as_str(), "/.config/", app_name);
                tokens.push((String::from_str("home"), home));
                tokens.push((String::from_str("app_data"), app_data));
                tokens.push((String::from_str("temp"), String::from_str("/tmp")));
            },
            Platform::Other => {},
        }
        let r = TokenResolver { tokens };
        proof {
            assert(pairs_view(r.tokens@) =~= default_tokens(app_name@, install_dir@, platform, *host));
            lemma_default_tokens_distinct(app_name@, install_dir@, platform, *host);
        }
        r
    }

    /// Set a token value
    pub fn set(&mut self, token: &str, value: &str)
        ensures
            final(self)@ == set_spec(old(self)@, token@, value@),
            distinct_tokens(old(self)@) ==> distinct_tokens(final(self)@),
    {
        proof {
            if distinct_tokens(self@) {
                lemma_set_keeps_distinct(self@, token@, value@);
            }
        }
        let key = String::from_str(token);
        let n = self.tokens.len();
        let mut i: usize = 0;
        while i < n
            invariant
                n == self.tokens@.len(),
                self.tokens@ == old(self).tokens@,
                i <= n,
                key@ == token@,
                forall|k: int| 0 <= k < i ==> (#[trigger] self.tokens@[k]).0@ != token@,
            decreases n - i,
        {
            if self.tokens[i].0 == key {
                let ghost old_view = pairs_view(self.tokens@);
                let ghost ii = i as int;
                proof {
                    assert forall|k: int| 0 <= k < ii implies (#[trigger] old_view[k]).0 != token@ by {
                        assert(self.tokens@[k].0@ != token@);
                    }
                    lemma_set_spec_at(old_view, token@, value@, ii);
                    if distinct_tokens(old_view) {
                        lemma_set_keeps_distinct(old_view, token@, value@);
                    }
                }
                let mut tokens = Vec::new();
                std::mem::swap(&mut tokens, &mut self.tokens);
                tokens.set(i, (key, String::from_str(value)));
                self.tokens = tokens;
                assert(pairs_view(self.tokens@) =~= old_view.update(ii, (token@, value@)));
                assert(distinct_tokens(old_view) ==> distinct_tokens(pairs_view(self.tokens@)));
                return;
            }
            i = i + 1;
        }
        let ghost old_view = pairs_view(self.tokens@);
        proof {
            assert forall|j: int| 0 <= j < old_view.len() implies (#[trigger] old_view[j]).0 != token@ by {
                assert(self.tokens@[j].0@ != token@);
            }
            lemma_set_spec_new(old_view, token@, value@);
        }
        let mut tokens = Vec::new();
        std::mem::swap(&mut tokens, &mut self.tokens);
        tokens.push((key, String::from_str(value)));
        self.tokens = tokens;
        assert(pairs_view(self.tokens@) =~= old_view.push((token@, value@)));
    }

    /// Replace all {token} occurrences in a path string
    pub fn resolve(&self, input: &str) -> (r: String)
        ensures
            r@ == resolve_spec(input@, self@),
    {
        let mut cur = chars_of(input);
        let n = self.tokens.len();
        assert(pairs_view(self.tokens@).skip(0) =~= pairs_view(self.tokens@));
        let mut i: usize = 0;
        while i < n
            invariant
                n == self.tokens@.len(),
                i <= n,
                resolve_spec(cur@, pairs_view(self.tokens@).skip(i as int)) == resolve_spec(
                    input@,
                    pairs_view(self.tokens@),
                ),
            decreases n - i,
        {
            let ghost table = pairs_view(self.tokens@);
            let name = chars_of(self.tokens[i].0.as_str());
            let mut pat: Vec<char> = Vec::new();
            pat.push('{');
            let mut k: usize = 0;
            while k < name.len()
                invariant
                    k <= name@.len(),
                    pat@ == seq!['{'] + name@.take(k as int),
                decreases name@.len() - k,
            {
                pat.push(name[k]);
                k = k + 1;
                assert(pat@ =~= seq!['{'] + name@.take(k as int));
            }
            pat.push('}');
            assert(name@.take(name@.len() as int) =~= name@);
            assert(pat@ =~= brace(table[i as int].0));
            let rep = chars_of(self.tokens[i].1.as_str());
            let next = replace_chars(&cur, &pat, &rep);
            proof {
                assert(table.skip(i as int).drop_first() =~= table.skip(i + 1));
                assert(table.skip(i as int)[0] == table[i as int]);
            }
            cur = next;
            i = i + 1;
        }
        assert(pairs_view(self.tokens@).skip(n as int) =~= Seq::<(Seq<char>, Seq<char>)>::empty());
        string_of(&cur)
    }
}

/// The decisions of the extraction step: where each file of a bundle goes,
/// by the bundle's manifest, and what is reported about it. The archive is
/// read and the files are written by the caller.
#[derive(Debug, Clone)]
pub struct Extractor {
    resolver: TokenResolver,
    step_index: usize,
}

impl Extractor {
    /// The tokens that destinations are resolved with.
    pub closed spec fn tokens(&self) -> TokenTable {
        self.resolver@
    }

    /// The index of the install step that this extraction belongs to.
    pub closed spec fn step(&self) -> usize {
        self.step_index
    }

    pub fn new(resolver: TokenResolver, step_index: usize) -> (r: Self)
        ensures
            r.tokens() == resolver@,
            r.step() == step_index,
    {
        Extractor { resolver, step_index }
    }

    /// The event that opens the extraction.
    pub fn begin_event(&self) -> (r: ProgressEvent)
        ensures
            r@ == (EventView::StepBegin {
                step_index: self.step() as nat,
                step_label: "Extracting files..."@,
            }),
    {
        ProgressEvent::StepBegin {
            step_index: self.step_index,
            step_label: String::from_str("Extracting files..."),
        }
    }

    /// Where the `index`-th file of a bundle goes (the files are counted
    /// after the manifest): the destination that the manifest's `index`-th
    /// entry gives, with the tokens resolved. An archive entry that is not
    /// that entry's file is refused.
    pub fn entry_destination(&self, manifest: &BundleManifest, index: usize, archive_path: &str) -> (r: Result<
        String,
        LynxError,
    >)
        ensures
            match placement(manifest.entries@, index as int, archive_path@, self.tokens()) {
                Some(d) => r matches Ok(x) && x@ == d,
                None => r matches Err(e) && e@ == ErrorView::Extract("Unexpected bundle entry: "@ + archive_path@),
            },
    {
        if index < manifest.entries.len() && str_equal(manifest.entries[index].archive_path.as_str(), archive_path) {
            Ok(self.resolver.resolve(manifest.entries[index].destination.as_str()))
        } else {
            Err(LynxError::Extract(concat("Unexpected bundle entry: ", archive_path)))
        }
    }

    /// The event reported after an entry was written to a file named
    /// `file_name`.
    pub fn file_event(&self, file_name: &str) -> (r: ProgressEvent)
        ensures
            r@ == (EventView::FileProgress {
                step_index: self.step() as nat,
                file_name: file_name@,
                bytes_written: 0,
                bytes_total: 0,
            }),
    {
        ProgressEvent::FileProgress {
            step_index: self.step_index,
            file_name: String::from_str(file_name),
            bytes_written: 0,
            bytes_total: 0,
        }
    }

    /// The event that closes an extraction of `count` entries.
    pub fn complete_event(&self, count: usize) -> (r: ProgressEvent)
        ensures
            r@ == (EventView::StepComplete {
                step_index: self.step() as nat,
                step_label: "Extracted "@ + decimal(count as nat) + " files"@,
            }),
    {
        let n = decimal_string(count as u64);
        ProgressEvent::StepComplete {
            step_index: self.step_index,
            step_label: concat3("Extracted ", n.as_str(), " files"),
        }
    }

    /// The event that closes an extraction of `count` files. Every file
    /// that the manifest lists must have been extracted.
    pub fn finish(&self, manifest: &BundleManifest, count: usize) -> (r: Result<ProgressEvent, LynxError>)
        ensures
            count == manifest.entries@.len() ==> (r matches Ok(ev) && ev@ == (EventView::StepComplete {
                step_index: self.step() as nat,
                step_label: "Extracted "@ + decimal(count as nat) + " files"@,
            })),
            count != manifest.entries@.len() ==> (r matches Err(e) && e@ == ErrorView::Extract(
                "Bundle is missing files listed in its manifest"@,
            )),
    {
        if count == manifest.entries.len() {
            Ok(self.complete_event(count))
        } else {
            Err(LynxError::Extract(String::from_str("Bundle is missing files listed in its manifest")))
        }
    }
}

} // verus!
