use vstd::prelude::*;

use crate::text::{push_chars, string_of_chars};

verus! {

/// Characters that are copied into an identifier unchanged: ASCII letters,
/// ASCII digits and the underscore.
pub open spec fn is_ident_char(c: char) -> bool {
    ('a' <= c && c <= 'z') || ('A' <= c && c <= 'Z') || ('0' <= c && c <= '9') || c == '_'
}

/// Whether every character of `s` is an identifier character.
pub open spec fn is_ident_text(s: Seq<char>) -> bool {
    forall|i: int| 0 <= i < s.len() ==> is_ident_char(#[trigger] s[i])
}

/// The fixed word that stands for a punctuation or whitespace character;
/// empty for a character that has none.
pub open spec fn mnemonic(c: char) -> Seq<char> {
    match c {
        '~' => seq!['T', 'I', 'L', 'D', 'E'],
        '`' => seq!['B', 'Q', 'U', 'O', 'T', 'E'],
        '!' => seq!['B', 'A', 'N', 'G'],
        '@' => seq!['A', 'T'],
        '#' => seq!['P', 'O', 'U', 'N', 'D'],
        '$' => seq!['D', 'O', 'L', 'L', 'A', 'R'],
        '%' => seq!['P', 'E', 'R', 'C', 'E', 'N', 'T'],
        '^' => seq!['C', 'A', 'R', 'E', 'T'],
        '&' => seq!['A', 'M', 'P'],
        '*' => seq!['S', 'T', 'A', 'R'],
        '(' => seq!['L', 'P', 'A', 'R', 'E', 'N'],
        ')' => seq!['R', 'P', 'A', 'R', 'E', 'N'],
        '-' => seq!['D', 'A', 'S', 'H'],
        '+' => seq!['P', 'L', 'U', 'S'],
        '=' => seq!['E', 'Q'],
        '{' => seq!['L', 'B', 'R', 'A', 'C', 'E'],
        '}' => seq!['R', 'B', 'R', 'A', 'C', 'E'],
        '[' => seq!['L', 'B', 'R', 'A', 'C', 'K'],
        ']' => seq!['R', 'B', 'R', 'A', 'C', 'K'],
        '\\' => seq!['B', 'S', 'L', 'A', 'S', 'H'],
        '|' => seq!['P', 'I', 'P', 'E'],
        ':' => seq!['C', 'O', 'L', 'O', 'N'],
        ';' => seq!['S', 'E', 'M', 'I'],
        '"' => seq!['D', 'Q', 'U', 'O', 'T', 'E'],
        '\'' => seq!['S', 'Q', 'U', 'O', 'T', 'E'],
        '<' => seq!['L', 'T'],
        '>' => seq!['G', 'T'],
        ',' => seq!['C', 'O', 'M', 'M', 'A'],
        '.' => seq!['D', 'O', 'T'],
        '?' => seq!['Q', 'M', 'A', 'R', 'K'],
        '/' => seq!['S', 'L', 'A', 'S', 'H'],
        '\n' => seq!['L', 'F'],
        '\r' => seq!['C', 'R'],
        '\t' => seq!['T', 'A', 'B'],
        _ => seq![],
    }
}

/// Appends one raw character to a partly built identifier `acc`; `after`
/// tells whether the last thing appended was a mnemonic. Returns the new
/// identifier and flag.
pub open spec fn sanitize_step(acc: Seq<char>, after: bool, c: char) -> (Seq<char>, bool) {
    if c == '_' {
        (acc.push(c), false)
    } else if is_ident_char(c) {
        if after {
            (acc.push('_').push(c), false)
        } else {
            (acc.push(c), false)
        }
    } else if mnemonic(c).len() == 0 {
        (acc, after)
    } else if acc.len() == 0 || acc.last() == '_' {
        (acc + mnemonic(c), true)
    } else {
        (acc.push('_') + mnemonic(c), true)
    }
}

/// The identifier derived from `s` left to right, with the flag that tells
/// whether its last part is a mnemonic.
pub open spec fn sanitize_state(s: Seq<char>) -> (Seq<char>, bool)
    decreases s.len(),
{
    if s.len() == 0 {
        (seq![], false)
    } else {
        let p = sanitize_state(s.drop_last());
        sanitize_step(p.0, p.1, s.last())
    }
}

/// The identifier derived from a raw node-kind name.
pub open spec fn sanitize(s: Seq<char>) -> Seq<char> {
    sanitize_state(s).0
}

/// Every mnemonic consists of upper-case ASCII letters.
proof fn lemma_mnemonic_upper(c: char)
    ensures
        forall|i: int| 0 <= i < mnemonic(c).len() ==> 'A' <= #[trigger] mnemonic(c)[i] <= 'Z',
{
}

/// Sanitizing always yields identifier characters only, and right after a
/// mnemonic the identifier is non-empty and ends in no `_`.
pub proof fn lemma_sanitize_is_ident(s: Seq<char>)
    ensures
        is_ident_text(sanitize(s)),
        sanitize_state(s).1 ==> sanitize(s).len() > 0 && sanitize(s).last() != '_',
    decreases s.len(),
{
    if s.len() > 0 {
        lemma_sanitize_is_ident(s.drop_last());
        lemma_mnemonic_upper(s.last());
        let acc = sanitize(s.drop_last());
        let m = mnemonic(s.last());
        if m.len() > 0 {
            assert(m[m.len() - 1] != '_');
            assert((acc + m).last() == m[m.len() - 1]);
            assert((acc.push('_') + m).last() == m[m.len() - 1]);
        }
    }
}

/// A name made of identifier characters only is its own identifier.
pub proof fn lemma_sanitize_keeps_ident(s: Seq<char>)
    requires
        is_ident_text(s),
    ensures
        sanitize(s) == s,
        !sanitize_state(s).1,
    decreases s.len(),
{
    if s.len() > 0 {
        assert(is_ident_text(s.drop_last()));
        lemma_sanitize_keeps_ident(s.drop_last());
        assert(is_ident_char(s[s.len() - 1]));
        assert(s.drop_last().push(s.last()) =~= s);
    }
}

/// Sanitizing twice gives the same identifier as sanitizing once.
pub proof fn lemma_sanitize_idempotent(s: Seq<char>)
    ensures
        sanitize(sanitize(s)) == sanitize(s),
{
    lemma_sanitize_is_ident(s);
    lemma_sanitize_keeps_ident(sanitize(s));
}

/// Whether `s` neither starts nor ends with `_` and holds no two `_` in a row.
pub open spec fn separators_well_placed(s: Seq<char>) -> bool {
    &&& (s.len() > 0 ==> s[0] != '_' && s.last() != '_')
    &&& forall|i: int| 0 <= i < s.len() - 1 && #[trigger] s[i] == '_' ==> s[i + 1] != '_'
}

/// The separators placed around mnemonics never lead the identifier and are
/// never doubled: a name without underscores gives an identifier with no
/// leading, trailing or consecutive underscores.
pub proof fn lemma_sanitize_separators(s: Seq<char>)
    requires
        forall|i: int| 0 <= i < s.len() ==> #[trigger] s[i] != '_',
    ensures
        separators_well_placed(sanitize(s)),
    decreases s.len(),
{
    if s.len() > 0 {
        let p = s.drop_last();
        assert(forall|i: int| 0 <= i < p.len() ==> #[trigger] p[i] == s[i]);
        lemma_sanitize_separators(p);
        lemma_sanitize_is_ident(p);
        let acc = sanitize(p);
        let c = s.last();
        assert(c == s[s.len() - 1]);
        lemma_mnemonic_upper(c);
        let m = mnemonic(c);
        let r = sanitize(s);
        if is_ident_char(c) {
            if sanitize_state(p).1 {
                assert(r == acc.push('_').push(c));
                assert forall|i: int| 0 <= i < r.len() - 1 && #[trigger] r[i] == '_' implies r[i
                    + 1] != '_' by {
                    if i < acc.len() - 1 {
                        assert(r[i] == acc[i]);
                        assert(r[i + 1] == acc[i + 1]);
                    } else if i == acc.len() - 1 {
                        assert(r[i] == acc.last());
                    }
                }
            } else {
                assert(r == acc.push(c));
                assert forall|i: int| 0 <= i < r.len() - 1 && #[trigger] r[i] == '_' implies r[i
                    + 1] != '_' by {
                    if i < acc.len() - 1 {
                        assert(r[i] == acc[i]);
                        assert(r[i + 1] == acc[i + 1]);
                    }
                }
            }
        } else if m.len() == 0 {
        } else if acc.len() == 0 {
            assert(r == m);
        } else {
            assert(r == acc.push('_') + m);
            assert forall|i: int| 0 <= i < r.len() - 1 && #[trigger] r[i] == '_' implies r[i + 1] != '_' by {
                if i < acc.len() - 1 {
                    assert(r[i] == acc[i]);
                    assert(r[i + 1] == acc[i + 1]);
                } else if i == acc.len() - 1 {
                    assert(r[i] == acc.last());
                } else if i == acc.len() {
                    assert(r[i + 1] == m[0]);
                } else {
                    assert(r[i] == m[i - acc.len() - 1]);
                }
            }
        }
    }
}

/// A character of the substitution table, alone, becomes its mnemonic.
pub proof fn lemma_sanitize_single(c: char)
    requires
        !is_ident_char(c),
    ensures
        sanitize(seq![c]) == mnemonic(c),
{
    let s = seq![c];
    assert(s.drop_last() =~= Seq::<char>::empty());
    assert(sanitize_state(s.drop_last()) == (Seq::<char>::empty(), false));
    assert(s.last() == c);
    assert(Seq::<char>::empty() + mnemonic(c) =~= mnemonic(c));
}

/// The mnemonic of `c`, as characters.
fn mnemonic_of(c: char) -> (r: Vec<char>)
    ensures
        r@ == mnemonic(c),
{
    match c {
        '~' => vec!['T', 'I', 'L', 'D', 'E'],
        '`' => vec!['B', 'Q', 'U', 'O', 'T', 'E'],
        '!' => vec!['B', 'A', 'N', 'G'],
        '@' => vec!['A', 'T'],
        '#' => vec!['P', 'O', 'U', 'N', 'D'],
        '$' => vec!['D', 'O', 'L', 'L', 'A', 'R'],
        '%' => vec!['P', 'E', 'R', 'C', 'E', 'N', 'T'],
        '^' => vec!['C', 'A', 'R', 'E', 'T'],
        '&' => vec!['A', 'M', 'P'],
        '*' => vec!['S', 'T', 'A', 'R'],
        '(' => vec!['L', 'P', 'A', 'R', 'E', 'N'],
        ')' => vec!['R', 'P', 'A', 'R', 'E', 'N'],
        '-' => vec!['D', 'A', 'S', 'H'],
        '+' => vec!['P', 'L', 'U', 'S'],
        '=' => vec!['E', 'Q'],
        '{' => vec!['L', 'B', 'R', 'A', 'C', 'E'],
        '}' => vec!['R', 'B', 'R', 'A', 'C', 'E'],
        '[' => vec!['L', 'B', 'R', 'A', 'C', 'K'],
        ']' => vec!['R', 'B', 'R', 'A', 'C', 'K'],
        '\\' => vec!['B', 'S', 'L', 'A', 'S', 'H'],
        '|' => vec!['P', 'I', 'P', 'E'],
        ':' => vec!['C', 'O', 'L', 'O', 'N'],
        ';' => vec!['S', 'E', 'M', 'I'],
        '"' => vec!['D', 'Q', 'U', 'O', 'T', 'E'],
        '\'' => vec!['S', 'Q', 'U', 'O', 'T', 'E'],
        '<' => vec!['L', 'T'],
        '>' => vec!['G', 'T'],
        ',' => vec!['C', 'O', 'M', 'M', 'A'],
        '.' => vec!['D', 'O', 'T'],
        '?' => vec!['Q', 'M', 'A', 'R', 'K'],
        '/' => vec!['S', 'L', 'A', 'S', 'H'],
        '\n' => vec!['L', 'F'],
        '\r' => vec!['C', 'R'],
        '\t' => vec!['T', 'A', 'B'],
        _ => Vec::new(),
    }
}

/// Maps a raw node-kind name to a string usable as a method-name suffix.
///
/// Letters, digits and `_` are kept; each character of the substitution
/// table becomes its mnemonic, preceded by `_` unless the result so far is
/// empty or already ends in `_`; a letter or digit that follows a mnemonic
/// is preceded by `_`; any other character is dropped.
pub fn sanitize_identifier(name: &str) -> (r: String)
    ensures
        r@ == sanitize(name@),
{
    broadcast use vstd::string::group_string_axioms;

    let mut out: Vec<char> = Vec::new();
    let mut after: bool = false;
    for c in it: name.chars()
        invariant
            it.seq() == name@,
            (out@, after) == sanitize_state(name@.take(it.index() as int)),
    {
        let ghost i = it.index() as int;
        assert(name@.take(i + 1).drop_last() =~= name@.take(i));
        assert(name@.take(i + 1).last() == c);
        if c == '_' {
            out.push(c);
            after = false;
        } else if ('a' <= c && c <= 'z') || ('A' <= c && c <= 'Z') || ('0' <= c && c <= '9') {
            if after {
                out.push('_');
            }
            out.push(c);
            after = false;
        } else {
            let m = mnemonic_of(c);
            if m.len() > 0 {
                if out.len() > 0 && out[out.len() - 1] != '_' {
                    out.push('_');
                }
                push_chars(&mut out, &m);
                after = true;
            }
        }
    }
    assert(name@.take(name@.len() as int) =~= name@);
    string_of_chars(out)
}

} // verus!
