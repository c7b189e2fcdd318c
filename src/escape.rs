use vstd::prelude::*;

verus! {

/// The characters that would end or alter a SPARQL string literal.
pub open spec fn is_metachar(c: char) -> bool {
    c == '"' || c == '\'' || c == '\\'
}

/// One input character as it stands in an escaped literal.
pub open spec fn escape_char(c: char) -> Seq<char> {
    if is_metachar(c) {
        seq!['\\', c]
    } else {
        seq![c]
    }
}

/// The escaped form of `s`: each metacharacter gets a backslash in front of it.
pub open spec fn escaped(s: Seq<char>) -> Seq<char>
    decreases s.len(),
{
    if s.len() == 0 {
        Seq::empty()
    } else {
        escape_char(s[0]) + escaped(s.subrange(1, s.len() as int))
    }
}

/// How many metacharacters `s` holds.
pub open spec fn metachar_count(s: Seq<char>) -> nat
    decreases s.len(),
{
    if s.len() == 0 {
        0
    } else {
        (if is_metachar(s[0]) { 1nat } else { 0nat }) + metachar_count(s.subrange(1, s.len() as int))
    }
}

/// True when `t`, read left to right, is a run of plain characters and of
/// backslash-metacharacter pairs: no metacharacter stands unescaped.
pub open spec fn well_escaped(t: Seq<char>) -> bool
    decreases t.len(),
{
    if t.len() == 0 {
        true
    } else if t.len() >= 2 && t[0] == '\\' && is_metachar(t[1]) {
        well_escaped(t.subrange(2, t.len() as int))
    } else {
        !is_metachar(t[0]) && well_escaped(t.subrange(1, t.len() as int))
    }
}

/// How many backslash-metacharacter pairs `t` holds, read left to right.
pub open spec fn escape_count(t: Seq<char>) -> nat
    decreases t.len(),
{
    if t.len() == 0 {
        0
    } else if t.len() >= 2 && t[0] == '\\' && is_metachar(t[1]) {
        1 + escape_count(t.subrange(2, t.len() as int))
    } else {
        escape_count(t.subrange(1, t.len() as int))
    }
}

/// `t` with the backslash of each backslash-metacharacter pair taken out.
pub open spec fn unescaped(t: Seq<char>) -> Seq<char>
    decreases t.len(),
{
    if t.len() == 0 {
        Seq::empty()
    } else if t.len() >= 2 && t[0] == '\\' && is_metachar(t[1]) {
        seq![t[1]] + unescaped(t.subrange(2, t.len() as int))
    } else {
        seq![t[0]] + unescaped(t.subrange(1, t.len() as int))
    }
}

/// The regular expression that matches one metacharacter as capture group 1.
pub open spec fn metachar_pattern() -> Seq<char> {
    "([\"'\\\\])"@
}

/// The replacement text: a backslash, then capture group 1.
pub open spec fn escaped_group_template() -> Seq<char> {
    "\\$1"@
}

/// Relies on regex::Regex::new, which accepts this fixed pattern, and on
/// Regex::replace_all, which replaces every non-overlapping match, left to
/// right, by the replacement with `$1` expanded to the matched character and
/// keeps the text between matches as it is.
#[verifier::external_body]
fn replace_metachars(pattern: &str, text: &str, replacement: &str) -> (r: String)
    requires
        pattern@ == metachar_pattern(),
        replacement@ == escaped_group_template(),
    ensures
        r@ == escaped(text@),
{
    regex::Regex::new(pattern).unwrap().replace_all(text, replacement).into_owned()
}

/// Makes `s` safe to place inside a SPARQL string literal: every `"`, `'`
/// and `\` is prefixed with a backslash, and nothing else changes.
pub fn escape_sparql(s: &str) -> (r: String)
    ensures
        r@ == escaped(s@),
{
    replace_metachars("([\"'\\\\])", s, "\\$1")
}

proof fn lemma_escaped_unfold(s: Seq<char>)
    requires
        s.len() > 0,
    ensures
        escaped(s).subrange(escape_char(s[0]).len() as int, escaped(s).len() as int)
            == escaped(s.subrange(1, s.len() as int)),
        escaped(s).len() == escape_char(s[0]).len() + escaped(s.subrange(1, s.len() as int)).len(),
{
    let a = escape_char(s[0]);
    let b = escaped(s.subrange(1, s.len() as int));
    assert((a + b).subrange(a.len() as int, (a + b).len() as int) =~= b);
}

/// A string with no metacharacter comes out of escaping unchanged.
pub proof fn lemma_escape_keeps_clean_input(s: Seq<char>)
    requires
        forall|i: int| 0 <= i < s.len() ==> !is_metachar(#[trigger] s[i]),
    ensures
        escaped(s) == s,
    decreases s.len(),
{
    if s.len() > 0 {
        let rest = s.subrange(1, s.len() as int);
        assert forall|i: int| 0 <= i < rest.len() implies !is_metachar(#[trigger] rest[i]) by {
            assert(rest[i] == s[i + 1]);
        }
        lemma_escape_keeps_clean_input(rest);
        assert(!is_metachar(s[0]));
        assert(s =~= seq![s[0]] + rest);
    }
}

/// Escaping is sound and exact: in the result every metacharacter stands right
/// after a backslash that escaping put there, removing those backslashes gives
/// the input back, and there are as many escapes as the input has
/// metacharacters.
pub proof fn lemma_escape_correct(s: Seq<char>)
    ensures
        well_escaped(escaped(s)),
        unescaped(escaped(s)) == s,
        escape_count(escaped(s)) == metachar_count(s),
        escaped(s).len() == s.len() + metachar_count(s),
    decreases s.len(),
{
    if s.len() > 0 {
        let rest = s.subrange(1, s.len() as int);
        lemma_escape_correct(rest);
        lemma_escaped_unfold(s);
        let t = escaped(s);
        if is_metachar(s[0]) {
            assert(t[0] == '\\' && t[1] == s[0]);
            assert(t.subrange(2, t.len() as int) == escaped(rest));
        } else {
            assert(t[0] == s[0]);
            assert(t.subrange(1, t.len() as int) == escaped(rest));
        }
        assert(s =~= seq![s[0]] + rest);
    }
}

} // verus!
