//! Pure text rebrander: substitutes the delegated tool's identity with the
//! launcher's in captured help output, line by line.
//!
//! A banner line is replaced with a fixed two-line identity string; a
//! `Usage:` line has the tool's name replaced throughout; an `Examples:`
//! line switches replacement on for the lines after it, a `Docs:` line
//! switches it off; every other line passes through unchanged. The output
//! ends with a newline exactly when the input does.

use vstd::prelude::*;

use crate::text::{
    chars_of, find_char, has_prefix, lemma_find_char, lemma_find_char_at, no_char, replace_all,
    replace_all_chars, starts_with_chars, string_from_chars, subvec,
};

verus! {

/// The delegated tool's name as it appears in help output.
pub open spec fn tool_name() -> Seq<char> {
    "openclaw"@
}

/// The launcher's own name, substituted for the tool's.
pub open spec fn launcher_name() -> Seq<char> {
    "chitin"@
}

/// The tool's banner marker without the decorative glyph.
pub open spec fn banner_plain() -> Seq<char> {
    "OpenClaw"@
}

/// The tool's banner marker with its leading decorative glyph.
pub open spec fn banner_glyph() -> Seq<char> {
    seq!['\u{1F99E}', ' '] + banner_plain()
}

/// Prefix of a usage line.
pub open spec fn usage_prefix() -> Seq<char> {
    "Usage:"@
}

/// Prefix of the line that opens an examples section.
pub open spec fn examples_prefix() -> Seq<char> {
    "Examples:"@
}

/// Prefix of the line that closes an examples section.
pub open spec fn docs_prefix() -> Seq<char> {
    "Docs:"@
}

/// The two-line identity string that replaces a banner line, combining the
/// launcher's version with the delegated tool's.
pub open spec fn banner_replacement() -> Seq<char> {
    "chitin 0.1.0\nopenclaw 2026.2.1"@
}

/// Lengths and newline-freedom of the fixed pattern strings.
proof fn lemma_patterns()
    ensures
        tool_name().len() == 8,
        launcher_name().len() == 6,
        no_char(launcher_name(), '\n'),
        banner_plain().len() == 8,
        banner_glyph().len() == 10,
        usage_prefix().len() == 6,
        examples_prefix().len() == 9,
        docs_prefix().len() == 5,
        banner_replacement().len() == 30,
        banner_replacement()[29] != '\n',
{
    reveal_strlit("openclaw");
    reveal_strlit("chitin");
    reveal_strlit("OpenClaw");
    reveal_strlit("Usage:");
    reveal_strlit("Examples:");
    reveal_strlit("Docs:");
    reveal_strlit("chitin 0.1.0\nopenclaw 2026.2.1");
    assert(launcher_name() =~= seq!['c', 'h', 'i', 't', 'i', 'n']);
    assert(no_char(seq!['c', 'h', 'i', 't', 'i', 'n'], '\n'));
}

/// Whether `l` is a banner line of the delegated tool, with or without the
/// decorative glyph.
pub open spec fn is_banner_line(l: Seq<char>) -> bool {
    has_prefix(l, banner_glyph()) || has_prefix(l, banner_plain())
}

/// The rebranded form of a single line (no newline inside `l`), given
/// whether the cursor is inside an examples section.
pub open spec fn rebrand_line(l: Seq<char>, in_examples: bool) -> Seq<char> {
    if is_banner_line(l) {
        banner_replacement()
    } else if has_prefix(l, usage_prefix()) {
        replace_all(l, tool_name(), launcher_name())
    } else if has_prefix(l, examples_prefix()) {
        l
    } else if has_prefix(l, docs_prefix()) {
        l
    } else if in_examples {
        replace_all(l, tool_name(), launcher_name())
    } else {
        l
    }
}

/// Whether the lines after `l` are inside an examples section.
pub open spec fn next_mode(l: Seq<char>, in_examples: bool) -> bool {
    if is_banner_line(l) || has_prefix(l, usage_prefix()) {
        in_examples
    } else if has_prefix(l, examples_prefix()) {
        true
    } else if has_prefix(l, docs_prefix()) {
        false
    } else {
        in_examples
    }
}

/// The rebranded form of `s`, starting in the given mode: the text up to
/// the first newline is one line, the rest follows with the mode that line
/// leaves behind.
pub open spec fn rebrand_from(s: Seq<char>, in_examples: bool) -> Seq<char>
    decreases s.len(),
    via rebrand_from_decreases
{
    match find_char(s, '\n') {
        Some(i) => rebrand_line(s.subrange(0, i), in_examples) + seq!['\n'] + rebrand_from(
            s.skip(i + 1),
            next_mode(s.subrange(0, i), in_examples),
        ),
        None => rebrand_line(s, in_examples),
    }
}

#[via_fn]
proof fn rebrand_from_decreases(s: Seq<char>, in_examples: bool) {
    lemma_find_char(s, '\n');
}

/// The rebranded form of a whole help text.
pub open spec fn rebrand_text(s: Seq<char>) -> Seq<char> {
    rebrand_from(s, false)
}

/// The launcher's name, as characters.
fn launcher_name_chars() -> (r: Vec<char>)
    ensures
        r@ == launcher_name(),
{
    chars_of("chitin")
}

/// The tool's name, as characters.
fn tool_name_chars() -> (r: Vec<char>)
    ensures
        r@ == tool_name(),
{
    chars_of("openclaw")
}

/// The banner marker with its glyph, as characters.
fn banner_glyph_chars() -> (r: Vec<char>)
    ensures
        r@ == banner_glyph(),
{
    let mut r: Vec<char> = Vec::new();
    r.push('\u{1F99E}');
    r.push(' ');
    let mut p = chars_of("OpenClaw");
    r.append(&mut p);
    proof {
        assert(r@ =~= banner_glyph());
    }
    r
}

/// One line rebranded, together with the mode for the lines after it.
fn rebrand_line_exec(l: &Vec<char>, in_examples: bool) -> (r: (Vec<char>, bool))
    ensures
        r.0@ == rebrand_line(l@, in_examples),
        r.1 == next_mode(l@, in_examples),
{
    let glyph = banner_glyph_chars();
    let plain = chars_of("OpenClaw");
    let usage = chars_of("Usage:");
    let examples = chars_of("Examples:");
    let docs = chars_of("Docs:");
    let tool = tool_name_chars();
    let launcher = launcher_name_chars();
    proof {
        lemma_patterns();
    }
    if starts_with_chars(l, &glyph) || starts_with_chars(l, &plain) {
        (chars_of("chitin 0.1.0\nopenclaw 2026.2.1"), in_examples)
    } else if starts_with_chars(l, &usage) {
        (replace_all_chars(l, &tool, &launcher), in_examples)
    } else if starts_with_chars(l, &examples) {
        (subvec(l, 0, l.len()), true)
    } else if starts_with_chars(l, &docs) {
        (subvec(l, 0, l.len()), false)
    } else if in_examples {
        (replace_all_chars(l, &tool, &launcher), in_examples)
    } else {
        (subvec(l, 0, l.len()), in_examples)
    }
}

/// The rebranded form of `v`, as characters.
fn rebrand_chars(v: &Vec<char>) -> (out: Vec<char>)
    ensures
        out@ == rebrand_text(v@),
{
    let mut out: Vec<char> = Vec::new();
    let mut in_examples = false;
    let mut i: usize = 0;
    proof {
        assert(v@.skip(0) =~= v@);
        assert(out@ + rebrand_from(v@.skip(0), false) =~= rebrand_from(v@, false));
    }
    while i < v.len()
        invariant
            i <= v@.len(),
            rebrand_text(v@) == out@ + rebrand_from(v@.skip(i as int), in_examples),
        decreases v@.len() - i,
    {
        let ghost rest = v@.skip(i as int);
        let mut j: usize = i;
        while j < v.len() && v[j] != '\n'
            invariant
                i <= j <= v@.len(),
                forall|k: int| i <= k < j ==> v@[k] != '\n',
            decreases v@.len() - j,
        {
            j = j + 1;
        }
        let line = subvec(v, i, j);
        proof {
            assert(line@ =~= rest.subrange(0, (j - i) as int));
            if j < v.len() {
                lemma_find_char_at(rest, '\n', (j - i) as int);
            } else {
                lemma_find_char(rest, '\n');
                if find_char(rest, '\n') is Some {
                    let idx = find_char(rest, '\n')->Some_0;
                    assert(v@[i + idx] == '\n');
                }
            }
        }
        let (mut lout, nmode) = rebrand_line_exec(&line, in_examples);
        let ghost pre = out@;
        out.append(&mut lout);
        if j < v.len() {
            out.push('\n');
            proof {
                assert(rest.skip((j - i) as int + 1) =~= v@.skip(j + 1));
                assert(rebrand_from(rest, in_examples) == rebrand_line(line@, in_examples) + seq![
                    '\n',
                ] + rebrand_from(v@.skip(j + 1), next_mode(line@, in_examples)));
                assert(pre + rebrand_from(rest, in_examples) =~= out@ + rebrand_from(
                    v@.skip(j + 1),
                    next_mode(line@, in_examples),
                ));
            }
            i = j + 1;
            in_examples = nmode;
        } else {
            proof {
                assert(line@ =~= rest);
                assert(rebrand_from(rest, in_examples) == rebrand_line(rest, in_examples));
                assert(v@.skip(v@.len() as int) =~= Seq::<char>::empty());
                lemma_patterns();
                assert(rebrand_from(Seq::<char>::empty(), nmode) == rebrand_line(
                    Seq::<char>::empty(),
                    nmode,
                ));
                assert(!is_banner_line(Seq::<char>::empty()));
                assert(rebrand_line(Seq::<char>::empty(), nmode) =~= Seq::<char>::empty());
                assert(pre + rebrand_from(rest, in_examples) =~= out@ + rebrand_from(
                    v@.skip(v@.len() as int),
                    nmode,
                ));
            }
            i = j;
            in_examples = nmode;
        }
    }
    proof {
        assert(v@.skip(i as int) =~= Seq::<char>::empty());
        lemma_patterns();
        assert(!is_banner_line(Seq::<char>::empty()));
        assert(rebrand_from(Seq::<char>::empty(), in_examples) =~= Seq::<char>::empty());
        assert(out@ + Seq::<char>::empty() =~= out@);
    }
    out
}

/// `s` is non-empty and its last character is a newline.
pub open spec fn ends_with_newline(s: Seq<char>) -> bool {
    s.len() > 0 && s[s.len() - 1] == '\n'
}

/// The empty line rebrands to the empty line.
proof fn lemma_rebrand_line_empty(m: bool)
    ensures
        rebrand_line(Seq::<char>::empty(), m) =~= Seq::<char>::empty(),
{
    lemma_patterns();
    assert(!is_banner_line(Seq::<char>::empty()));
}

/// A non-empty line without a newline rebrands to a non-empty text whose
/// last character is not a newline.
proof fn lemma_rebrand_line_no_trailing_newline(l: Seq<char>, m: bool)
    requires
        l.len() > 0,
        no_char(l, '\n'),
    ensures
        rebrand_line(l, m).len() > 0,
        rebrand_line(l, m)[rebrand_line(l, m).len() - 1] != '\n',
{
    lemma_patterns();
    let r = rebrand_line(l, m);
    if is_banner_line(l) {
        assert(r[r.len() - 1] != '\n');
    } else if has_prefix(l, usage_prefix()) || (!has_prefix(l, examples_prefix()) && !has_prefix(
        l,
        docs_prefix(),
    ) && m) {
        crate::text::lemma_replace_all_nonempty(l, tool_name(), launcher_name());
        crate::text::lemma_replace_all_no_char(l, tool_name(), launcher_name(), '\n');
    } else {
    }
}

/// Rebranding a non-empty text yields a non-empty text.
proof fn lemma_rebrand_from_nonempty(s: Seq<char>, m: bool)
    requires
        s.len() > 0,
    ensures
        rebrand_from(s, m).len() > 0,
{
    lemma_find_char(s, '\n');
    match find_char(s, '\n') {
        Some(i) => {
            assert(rebrand_from(s, m).len() >= 1);
        },
        None => {
            assert(no_char(s, '\n'));
            lemma_rebrand_line_no_trailing_newline(s, m);
        },
    }
}

/// Scoping of the rebranding: a line outside the banner, `Usage:`,
/// `Examples:` and `Docs:` contexts, with the examples mode off, passes
/// through unchanged — whatever it holds, the delegated tool's name
/// included.
pub proof fn lemma_rebrand_scoping(l: Seq<char>)
    requires
        !is_banner_line(l),
        !has_prefix(l, usage_prefix()),
        !has_prefix(l, examples_prefix()),
        !has_prefix(l, docs_prefix()),
    ensures
        rebrand_line(l, false) == l,
        next_mode(l, false) == false,
{
}

/// Newline parity: the rebranded text ends with a newline exactly when the
/// input does.
pub proof fn lemma_newline_parity(s: Seq<char>, m: bool)
    ensures
        ends_with_newline(rebrand_from(s, m)) == ends_with_newline(s),
    decreases s.len(),
{
    lemma_find_char(s, '\n');
    match find_char(s, '\n') {
        Some(i) => {
            let line = s.subrange(0, i);
            let m2 = next_mode(line, m);
            let rest = s.skip(i + 1);
            let rr = rebrand_from(rest, m2);
            let result = rebrand_line(line, m) + seq!['\n'] + rr;
            assert(result == rebrand_from(s, m));
            lemma_newline_parity(rest, m2);
            if rest.len() == 0 {
                assert(i == s.len() - 1);
                assert(s[s.len() - 1] == '\n');
                assert(rest =~= Seq::<char>::empty());
                assert(find_char(rest, '\n') is None);
                lemma_rebrand_line_empty(m2);
                assert(rr == rebrand_line(Seq::<char>::empty(), m2));
                assert(rr.len() == 0);
                assert(result[result.len() - 1] == '\n');
            } else {
                lemma_rebrand_from_nonempty(rest, m2);
                assert(result[result.len() - 1] == rr[rr.len() - 1]);
                assert(s[s.len() - 1] == rest[rest.len() - 1]);
            }
        },
        None => {
            if s.len() == 0 {
                assert(s =~= Seq::<char>::empty());
                lemma_rebrand_line_empty(m);
                assert(rebrand_from(s, m) == rebrand_line(Seq::<char>::empty(), m));
                assert(rebrand_from(s, m).len() == 0);
            } else {
                assert(no_char(s, '\n'));
                lemma_rebrand_line_no_trailing_newline(s, m);
                assert(!ends_with_newline(s));
            }
        },
    }
}

/// The whole help text rebranded: banner lines replaced with the launcher's
/// identity, the tool's name replaced with the launcher's on usage lines and
/// inside examples sections, everything else unchanged.
pub fn rebrand_help(text: &str) -> (r: String)
    ensures
        r@ == rebrand_text(text@),
{
    let cs = chars_of(text);
    let out = rebrand_chars(&cs);
    string_from_chars(&out)
}

} // verus!
