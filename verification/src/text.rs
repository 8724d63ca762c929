//! Text as sequences of characters: decimal notation, joining, splitting and
//! trimming.

use vstd::prelude::*;
use vstd::string::*;

verus! {

/// The decimal digit with value `d`, for `d` from 0 to 9.
pub open spec fn digit_char(d: int) -> char {
    (48 + d) as char
}

/// Whether `c` is one of the ten ASCII digits.
pub open spec fn is_digit(c: char) -> bool {
    '0' <= c <= '9'
}

/// The value of an ASCII digit.
pub open spec fn digit_value(c: char) -> int {
    c as int - 48
}

/// `n` in decimal notation, without leading zeros.
pub open spec fn decimal(n: nat) -> Seq<char>
    decreases n,
{
    if n < 10 {
        seq![digit_char(n as int)]
    } else {
        decimal(n / 10).push(digit_char((n % 10) as int))
    }
}

/// `i` in decimal notation, with a leading minus sign where it is negative.
pub open spec fn signed_decimal(i: int) -> Seq<char> {
    if i < 0 {
        seq!['-'] + decimal((-i) as nat)
    } else {
        decimal(i as nat)
    }
}

/// `parts` one after the other, with `sep` between neighbours.
pub open spec fn join(parts: Seq<Seq<char>>, sep: Seq<char>) -> Seq<char>
    decreases parts.len(),
{
    if parts.len() == 0 {
        Seq::empty()
    } else if parts.len() == 1 {
        parts[0]
    } else {
        join(parts.drop_last(), sep) + sep + parts.last()
    }
}

/// The pieces of `s` between the occurrences of `sep`. There is one piece more
/// than there are separators; a piece may be empty.
pub open spec fn split(s: Seq<char>, sep: char) -> Seq<Seq<char>>
    decreases s.len(),
{
    if s.len() == 0 {
        seq![Seq::empty()]
    } else {
        let before = split(s.drop_last(), sep);
        if s.last() == sep {
            before.push(Seq::empty())
        } else {
            before.drop_last().push(before.last().push(s.last()))
        }
    }
}

/// The characters with the Unicode property `White_Space`.
pub open spec fn is_white_space(c: char) -> bool {
    ||| '\u{9}' <= c <= '\u{d}'
    ||| c == '\u{20}'
    ||| c == '\u{85}'
    ||| c == '\u{a0}'
    ||| c == '\u{1680}'
    ||| '\u{2000}' <= c <= '\u{200a}'
    ||| c == '\u{2028}'
    ||| c == '\u{2029}'
    ||| c == '\u{202f}'
    ||| c == '\u{205f}'
    ||| c == '\u{3000}'
}

/// `s` without the white space at its two ends.
pub open spec fn trim(s: Seq<char>) -> Seq<char>
    decreases s.len(),
{
    if s.len() == 0 {
        s
    } else if is_white_space(s[0]) {
        trim(s.drop_first())
    } else if is_white_space(s.last()) {
        trim(s.drop_last())
    } else {
        s
    }
}

/// `split` finds at least one piece.
proof fn lemma_split_len(s: Seq<char>, sep: char)
    ensures
        split(s, sep).len() >= 1,
    decreases s.len(),
{
    if s.len() > 0 {
        lemma_split_len(s.drop_last(), sep);
    }
}

/// A text without separators is one piece.
proof fn lemma_split_one(s: Seq<char>, sep: char)
    requires
        !s.contains(sep),
    ensures
        split(s, sep) == seq![s],
    decreases s.len(),
{
    if s.len() > 0 {
        assert(s[s.len() - 1] == s.last());
        assert forall|i: int| 0 <= i < s.len() - 1 implies s.drop_last()[i] != sep by {
            assert(s[i] != sep);
        }
        lemma_split_one(s.drop_last(), sep);
        assert(seq![s.drop_last()].drop_last() == Seq::<Seq<char>>::empty());
        assert(s.drop_last().push(s.last()) == s);
    } else {
        assert(s == Seq::<char>::empty());
    }
}

/// Two texts with a separator between them have the pieces of the one and those of
/// the other.
pub proof fn law_split_at_separator(a: Seq<char>, sep: char, b: Seq<char>)
    ensures
        split(a + seq![sep] + b, sep) == split(a, sep) + split(b, sep),
    decreases b.len(),
{
    let s = a + seq![sep] + b;
    lemma_split_len(b, sep);
    if b.len() == 0 {
        assert(s.drop_last() == a);
        assert(s.last() == sep);
        assert(split(a, sep).push(Seq::empty()) =~= split(a, sep) + seq![Seq::<char>::empty()]);
    } else {
        let shorter = b.drop_last();
        law_split_at_separator(a, sep, shorter);
        lemma_split_len(shorter, sep);
        assert(s.drop_last() == a + seq![sep] + shorter);
        assert(s.last() == b.last());
        let front = split(a, sep);
        let back = split(shorter, sep);
        let all = front + back;
        assert(all.last() == back.last());
        if b.last() == sep {
            assert(all.push(Seq::empty()) =~= front + back.push(Seq::empty()));
        } else {
            let grown = back.last().push(b.last());
            assert(all.drop_last().push(grown) =~= front + back.drop_last().push(grown));
        }
    }
}

/// Whether `s` consists of white space.
pub open spec fn is_blank(s: Seq<char>) -> bool {
    forall|i: int| 0 <= i < s.len() ==> is_white_space(#[trigger] s[i])
}

/// Of white space, trimming leaves nothing.
pub(crate) proof fn lemma_trim_blank(s: Seq<char>)
    requires
        is_blank(s),
    ensures
        trim(s).len() == 0,
    decreases s.len(),
{
    if s.len() > 0 {
        assert(is_white_space(s[0]));
        assert forall|i: int| 0 <= i < s.len() - 1 implies is_white_space(
            #[trigger] s.drop_first()[i],
        ) by {
            assert(is_white_space(s[i + 1]));
        }
        lemma_trim_blank(s.drop_first());
    }
}

/// Trimming removes white space in front.
proof fn lemma_trim_left(left: Seq<char>, s: Seq<char>)
    requires
        is_blank(left),
    ensures
        trim(left + s) == trim(s),
    decreases left.len(),
{
    if left.len() == 0 {
        assert(left + s == s);
    } else {
        assert(is_white_space(left[0]));
        assert((left + s)[0] == left[0]);
        assert forall|i: int| 0 <= i < left.len() - 1 implies is_white_space(
            #[trigger] left.drop_first()[i],
        ) by {
            assert(is_white_space(left[i + 1]));
        }
        lemma_trim_left(left.drop_first(), s);
        assert((left + s).drop_first() == left.drop_first() + s);
    }
}

/// Trimming removes white space behind.
proof fn lemma_trim_right(s: Seq<char>, right: Seq<char>)
    requires
        is_blank(right),
    ensures
        trim(s + right) == trim(s),
    decreases s.len() + right.len(),
{
    let all = s + right;
    if right.len() == 0 {
        assert(all == s);
    } else if s.len() == 0 {
        assert(all == right);
        assert(trim(s) == s);
        lemma_trim_blank(right);
        assert(trim(all) =~= s);
    } else if is_white_space(s[0]) {
        assert(all[0] == s[0]);
        lemma_trim_right(s.drop_first(), right);
        assert(all.drop_first() == s.drop_first() + right);
    } else {
        assert(all[0] == s[0]);
        assert(is_white_space(right[right.len() - 1]));
        assert(all.last() == right.last());
        assert forall|i: int| 0 <= i < right.len() - 1 implies is_white_space(
            #[trigger] right.drop_last()[i],
        ) by {
            assert(is_white_space(right[i]));
        }
        lemma_trim_right(s, right.drop_last());
        assert(all.drop_last() == s + right.drop_last());
    }
}

/// White space around a text does not change what trimming leaves of it.
pub proof fn law_trim_ignores_padding(left: Seq<char>, s: Seq<char>, right: Seq<char>)
    requires
        is_blank(left),
        is_blank(right),
    ensures
        trim(left + s + right) == trim(s),
{
    lemma_trim_right(left + s, right);
    lemma_trim_left(left, s);
}

/// Trimming leaves a part of the text that neither starts nor ends with white space,
/// and takes away nothing but white space; it leaves nothing exactly of white space.
pub proof fn law_trim_removes_only_white_space(s: Seq<char>)
    ensures
        trim(s).len() > 0 ==> !is_white_space(trim(s)[0]) && !is_white_space(trim(s).last()),
        exists|left: Seq<char>, right: Seq<char>|
            is_blank(left) && is_blank(right) && s == #[trigger] (left + trim(s) + right),
        trim(s).len() == 0 <==> is_blank(s),
    decreases s.len(),
{
    let none = Seq::<char>::empty();
    if s.len() == 0 {
        assert(s =~= none + trim(s) + none);
    } else if is_white_space(s[0]) {
        let rest = s.drop_first();
        law_trim_removes_only_white_space(rest);
        let (left, right) = choose|left: Seq<char>, right: Seq<char>|
            is_blank(left) && is_blank(right) && rest == #[trigger] (left + trim(rest) + right);
        let longer = seq![s[0]] + left;
        assert forall|i: int| 0 <= i < longer.len() implies is_white_space(#[trigger] longer[i]) by {
            if i > 0 {
                assert(is_white_space(left[i - 1]));
            }
        }
        let core = trim(rest);
        assert(trim(s) == core);
        assert(rest == left + core + right);
        assert(s =~= seq![s[0]] + rest);
        assert(seq![s[0]] + (left + core + right) =~= longer + core + right);
        if is_blank(rest) {
            assert forall|i: int| 0 <= i < s.len() implies is_white_space(#[trigger] s[i]) by {
                if i > 0 {
                    assert(is_white_space(rest[i - 1]));
                }
            }
        } else if is_blank(s) {
            assert forall|i: int| 0 <= i < rest.len() implies is_white_space(
                #[trigger] rest[i],
            ) by {
                assert(is_white_space(s[i + 1]));
            }
        }
    } else if is_white_space(s.last()) {
        let rest = s.drop_last();
        law_trim_removes_only_white_space(rest);
        let (left, right) = choose|left: Seq<char>, right: Seq<char>|
            is_blank(left) && is_blank(right) && rest == #[trigger] (left + trim(rest) + right);
        let longer = right.push(s.last());
        assert forall|i: int| 0 <= i < longer.len() implies is_white_space(#[trigger] longer[i]) by {
            if i < right.len() {
                assert(is_white_space(right[i]));
            }
        }
        let core = trim(rest);
        assert(trim(s) == core);
        assert(rest == left + core + right);
        assert(s =~= rest.push(s.last()));
        assert((left + core + right).push(s.last()) =~= left + core + longer);
        assert(!is_white_space(s[0]));
        assert(rest.len() > 0 && rest[0] == s[0]);
    } else {
        assert(s =~= none + trim(s) + none);
        assert(!is_white_space(s[0]));
    }
}

/// The pieces of a text hold no separator and, joined by it, make up the text.
pub proof fn law_join_undoes_split(s: Seq<char>, sep: char)
    ensures
        split(s, sep).len() > 0,
        forall|i: int| 0 <= i < split(s, sep).len() ==> !(#[trigger] split(s, sep)[i]).contains(sep),
        join(split(s, sep), seq![sep]) == s,
    decreases s.len(),
{
    let pieces = split(s, sep);
    if s.len() == 0 {
        assert(pieces[0] =~= Seq::<char>::empty());
        assert(join(pieces, seq![sep]) =~= s);
    } else {
        let front = s.drop_last();
        let before = split(front, sep);
        law_join_undoes_split(front, sep);
        if s.last() == sep {
            assert(pieces.drop_last() =~= before);
            assert forall|i: int| 0 <= i < pieces.len() implies !(#[trigger] pieces[i]).contains(
                sep,
            ) by {
                if i < before.len() {
                    assert(pieces[i] == before[i]);
                } else {
                    assert(pieces[i].len() == 0);
                }
            }
            assert(join(pieces, seq![sep]) =~= front + seq![sep]);
            assert(front + seq![sep] =~= s);
        } else {
            let last = before.last().push(s.last());
            assert(pieces.last() == last);
            assert(pieces.drop_last() =~= before.drop_last());
            assert forall|i: int| 0 <= i < pieces.len() implies !(#[trigger] pieces[i]).contains(
                sep,
            ) by {
                if i < before.len() - 1 {
                    assert(pieces[i] == before[i]);
                } else {
                    let old_last = before[before.len() - 1];
                    assert(!old_last.contains(sep));
                    assert forall|j: int| 0 <= j < last.len() implies last[j] != sep by {
                        if j < old_last.len() {
                            assert(last[j] == old_last[j]);
                        }
                    }
                }
            }
            assert(join(pieces, seq![sep]) =~= join(before, seq![sep]).push(s.last()));
            assert(front.push(s.last()) =~= s);
        }
    }
}

/// Of no parts nothing is joined, one part is itself, and a further part comes behind
/// the others and a separator.
pub proof fn law_join_puts_separators_between(parts: Seq<Seq<char>>, sep: Seq<char>, last: Seq<char>)
    ensures
        join(Seq::empty(), sep) == Seq::<char>::empty(),
        join(seq![last], sep) == last,
        parts.len() > 0 ==> join(parts.push(last), sep) == join(parts, sep) + sep + last,
{
    assert(parts.push(last).drop_last() =~= parts);
}

/// The white space: these twenty-five characters and no others.
pub proof fn law_white_space()
    ensures
        forall|c: char| #[trigger] is_white_space(c) <==> seq![
            '\t', '\n', '\u{b}', '\u{c}', '\r', ' ', '\u{85}', '\u{a0}', '\u{1680}', '\u{2000}',
            '\u{2001}', '\u{2002}', '\u{2003}', '\u{2004}', '\u{2005}', '\u{2006}', '\u{2007}',
            '\u{2008}', '\u{2009}', '\u{200a}', '\u{2028}', '\u{2029}', '\u{202f}', '\u{205f}',
            '\u{3000}',
        ].contains(c),
{
    let all = seq![
        '\t', '\n', '\u{b}', '\u{c}', '\r', ' ', '\u{85}', '\u{a0}', '\u{1680}', '\u{2000}',
        '\u{2001}', '\u{2002}', '\u{2003}', '\u{2004}', '\u{2005}', '\u{2006}', '\u{2007}',
        '\u{2008}', '\u{2009}', '\u{200a}', '\u{2028}', '\u{2029}', '\u{202f}', '\u{205f}',
        '\u{3000}',
    ];
    assert forall|c: char| #[trigger] is_white_space(c) implies all.contains(c) by {
        if c <= '\u{d}' {
            assert(all[c as int - 9] == c);
        } else if '\u{2000}' <= c <= '\u{200a}' {
            assert(all[c as int - 0x2000 + 9] == c);
        } else {
            assert(all[5] == ' ' && all[6] == '\u{85}' && all[7] == '\u{a0}' && all[8] == '\u{1680}');
            assert(all[20] == '\u{2028}' && all[21] == '\u{2029}' && all[22] == '\u{202f}');
            assert(all[23] == '\u{205f}' && all[24] == '\u{3000}');
        }
    }
}

/// Texts without separators, joined by the separator, are split into themselves.
pub proof fn law_split_undoes_join(parts: Seq<Seq<char>>, sep: char)
    requires
        parts.len() > 0,
        forall|i: int| 0 <= i < parts.len() ==> !(#[trigger] parts[i]).contains(sep),
    ensures
        split(join(parts, seq![sep]), sep) == parts,
    decreases parts.len(),
{
    if parts.len() == 1 {
        lemma_split_one(parts[0], sep);
        assert(seq![parts[0]] == parts);
    } else {
        let shorter = parts.drop_last();
        assert forall|i: int| 0 <= i < shorter.len() implies !(#[trigger] shorter[i]).contains(
            sep,
        ) by {
            assert(shorter[i] == parts[i]);
        }
        law_split_undoes_join(shorter, sep);
        assert(parts.last() == parts[parts.len() - 1]);
        law_split_at_separator(join(shorter, seq![sep]), sep, parts.last());
        lemma_split_one(parts.last(), sep);
        assert(shorter + seq![parts.last()] == parts);
    }
}

/// Whether `c` is white space.
pub fn white_space(c: char) -> (r: bool)
    ensures
        r == is_white_space(c),
{
    ('\u{9}' <= c && c <= '\u{d}') || c == '\u{20}' || c == '\u{85}' || c == '\u{a0}'
        || c == '\u{1680}' || ('\u{2000}' <= c && c <= '\u{200a}') || c == '\u{2028}'
        || c == '\u{2029}' || c == '\u{202f}' || c == '\u{205f}' || c == '\u{3000}'
}

/// The characters of `s`, in order.
pub fn chars_of(s: &str) -> (r: Vec<char>)
    ensures
        r@ == s@,
{
    let mut r: Vec<char> = Vec::new();
    for c in it: s.chars()
        invariant
            it.seq() == s@,
            r@ == s@.take(it.index() as int),
    {
        r.push(c);
        assert(s@.take(it.index() as int + 1) == s@.take(it.index() as int).push(c));
    }
    assert(s@.take(s@.len() as int) == s@);
    r
}

/// Whether `a` and `b` hold the same characters.
pub fn same_text(a: &str, b: &str) -> (r: bool)
    ensures
        r == (a@ == b@),
{
    a.to_owned() == b.to_owned()
}

/// The text of one decimal digit.
fn digit_text(d: u64) -> (r: &'static str)
    requires
        d < 10,
    ensures
        r@ == seq![digit_char(d as int)],
{
    proof {
        reveal_strlit("0");
        reveal_strlit("1");
        reveal_strlit("2");
        reveal_strlit("3");
        reveal_strlit("4");
        reveal_strlit("5");
        reveal_strlit("6");
        reveal_strlit("7");
        reveal_strlit("8");
        reveal_strlit("9");
    }
    match d {
        0 => "0",
        1 => "1",
        2 => "2",
        3 => "3",
        4 => "4",
        5 => "5",
        6 => "6",
        7 => "7",
        8 => "8",
        _ => "9",
    }
}

/// Appends `n` in decimal notation to `out`.
pub fn push_decimal(out: &mut String, n: u64)
    ensures
        final(out)@ == old(out)@ + decimal(n as nat),
    decreases n,
{
    if n >= 10 {
        push_decimal(out, n / 10);
    }
    out.append(digit_text(n % 10));
}

/// Appends `i` in decimal notation to `out`, with its sign where it is negative.
pub fn push_signed(out: &mut String, i: i64)
    ensures
        final(out)@ == old(out)@ + signed_decimal(i as int),
{
    if i < 0 {
        proof {
            reveal_strlit("-");
        }
        out.append("-");
        let magnitude: u64 = (-(i as i128)) as u64;
        push_decimal(out, magnitude);
    } else {
        push_decimal(out, i as u64);
    }
}

} // verus!
