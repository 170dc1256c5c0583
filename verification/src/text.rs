//! Text as sequences of characters: splitting, joining, searching and decimal
//! numerals, each with its meaning stated over `Seq<char>`.
use vstd::prelude::*;

verus! {

/// The pieces of `s` between occurrences of `sep`, in order. There is always
/// at least one piece; a separator at either end leaves an empty piece there.
pub open spec fn pieces(s: Seq<char>, sep: char) -> Seq<Seq<char>>
    decreases s.len(),
{
    if s.len() == 0 {
        seq![Seq::<char>::empty()]
    } else {
        let before = pieces(s.drop_last(), sep);
        if s.last() == sep {
            before.push(Seq::<char>::empty())
        } else {
            before.drop_last().push(before.last().push(s.last()))
        }
    }
}

/// The texts of `parts` written one after another with `sep` between
/// neighbours.
pub open spec fn joined(parts: Seq<Seq<char>>, sep: Seq<char>) -> Seq<char>
    decreases parts.len(),
{
    if parts.len() == 0 {
        Seq::<char>::empty()
    } else if parts.len() == 1 {
        parts[0]
    } else {
        joined(parts.drop_last(), sep) + sep + parts.last()
    }
}

/// `needle` occurs in `hay` as a contiguous run of characters.
pub open spec fn occurs_in(needle: Seq<char>, hay: Seq<char>) -> bool {
    exists|i: int| occurs_at(needle, hay, i)
}

/// `needle` occurs in `hay` starting at position `i`.
pub open spec fn occurs_at(needle: Seq<char>, hay: Seq<char>, i: int) -> bool {
    &&& 0 <= i
    &&& i + needle.len() <= hay.len()
    &&& hay.subrange(i, i + needle.len()) == needle
}

/// `prefix` is how `s` begins.
pub open spec fn starts_with(s: Seq<char>, prefix: Seq<char>) -> bool {
    prefix.len() <= s.len() && s.subrange(0, prefix.len() as int) == prefix
}

/// `suffix` is how `s` ends.
pub open spec fn ends_with(s: Seq<char>, suffix: Seq<char>) -> bool {
    suffix.len() <= s.len() && s.subrange(s.len() - suffix.len(), s.len() as int) == suffix
}

/// The character that writes the digit `d`.
pub open spec fn digit_char(d: nat) -> char {
    if d == 0 {
        '0'
    } else if d == 1 {
        '1'
    } else if d == 2 {
        '2'
    } else if d == 3 {
        '3'
    } else if d == 4 {
        '4'
    } else if d == 5 {
        '5'
    } else if d == 6 {
        '6'
    } else if d == 7 {
        '7'
    } else if d == 8 {
        '8'
    } else {
        '9'
    }
}

/// The decimal numeral of `n`, without sign or leading zeros.
pub open spec fn decimal(n: nat) -> Seq<char>
    decreases n,
{
    if n < 10 {
        seq![digit_char(n)]
    } else {
        decimal(n / 10).push(digit_char(n % 10))
    }
}

/// The characters of `s`, in order.
pub fn to_chars(s: &str) -> (out: Vec<char>)
    ensures
        out@ == s@,
{
    let mut out: Vec<char> = Vec::new();
    for c in it: s.chars()
        invariant
            it.seq() == s@,
            out@ == it.seq().subrange(0, it.index()),
    {
        out.push(c);
        assert(out@ =~= it.seq().subrange(0, it.index() + 1));
    }
    assert(out@ =~= s@);
    out
}

/// Whether two texts hold the same characters.
pub fn same_text(a: &str, b: &str) -> (same: bool)
    ensures
        same == (a@ == b@),
{
    let x = to_chars(a);
    let y = to_chars(b);
    if x.len() != y.len() {
        return false;
    }
    let mut i: usize = 0;
    while i < x.len()
        invariant
            x@ == a@,
            y@ == b@,
            x.len() == y.len(),
            i <= x.len(),
            forall|j: int| 0 <= j < i ==> x@[j] == y@[j],
        decreases x.len() - i,
    {
        if x[i] != y[i] {
            return false;
        }
        i = i + 1;
    }
    assert(a@ =~= b@);
    true
}

/// Whether `needle` occurs somewhere in `hay`.
pub fn contains_text(hay: &str, needle: &str) -> (found: bool)
    ensures
        found == occurs_in(needle@, hay@),
{
    let h = to_chars(hay);
    let n = to_chars(needle);
    if n.len() > h.len() {
        assert(forall|i: int| !occurs_at(needle@, hay@, i));
        return false;
    }
    let last: usize = h.len() - n.len();
    let mut i: usize = 0;
    while i <= last
        invariant
            h@ == hay@,
            n@ == needle@,
            n.len() <= h.len(),
            last == h.len() - n.len(),
            i <= last + 1,
            forall|k: int| 0 <= k < i ==> !occurs_at(needle@, hay@, k),
        decreases last + 1 - i,
    {
        let mut j: usize = 0;
        while j < n.len() && h[i + j] == n[j]
            invariant
                h@ == hay@,
                n@ == needle@,
                i <= last,
                last == h.len() - n.len(),
                j <= n.len(),
                forall|k: int| 0 <= k < j ==> h@[i + k] == n@[k],
            decreases n.len() - j,
        {
            j = j + 1;
        }
        if j == n.len() {
            assert(hay@.subrange(i as int, i + needle@.len()) =~= needle@);
            assert(occurs_at(needle@, hay@, i as int));
            return true;
        }
        assert(!occurs_at(needle@, hay@, i as int)) by {
            if occurs_at(needle@, hay@, i as int) {
                assert(hay@.subrange(i as int, i + needle@.len())[j as int] == needle@[j as int]);
            }
        }
        i = i + 1;
    }
    assert(forall|k: int| !occurs_at(needle@, hay@, k));
    false
}

/// The pieces of `s` between occurrences of `sep`, in order.
pub fn split(s: &str, sep: char) -> (out: Vec<String>)
    ensures
        out.deep_view() == pieces(s@, sep),
{
    let chars = to_chars(s);
    let n: usize = chars.len();
    let mut out: Vec<String> = Vec::new();
    let mut start: usize = 0;
    let mut i: usize = 0;
    assert(s@.subrange(0, 0) =~= Seq::<char>::empty());
    assert(out.deep_view() =~= Seq::<Seq<char>>::empty());
    assert(pieces(s@.subrange(0, 0), sep) =~= out.deep_view().push(s@.subrange(0, 0)));
    while i < n
        invariant
            chars@ == s@,
            n == s@.len(),
            start <= i <= n,
            pieces(s@.subrange(0, i as int), sep) == out.deep_view().push(
                s@.subrange(start as int, i as int),
            ),
        decreases n - i,
    {
        let ghost shorter = s@.subrange(0, i as int);
        let ghost longer = s@.subrange(0, i + 1);
        let ghost done = out.deep_view();
        assert(longer.drop_last() =~= shorter);
        assert(longer.last() == s@[i as int]);
        if chars[i] == sep {
            out.push(String::from_str(s.substring_char(start, i)));
            start = i + 1;
            assert(s@.subrange(i + 1, i + 1) =~= Seq::<char>::empty());
        } else {
            assert(s@.subrange(start as int, i + 1) =~= s@.subrange(start as int, i as int).push(
                s@[i as int],
            ));
            assert(done.push(s@.subrange(start as int, i as int)).drop_last() =~= done);
        }
        i = i + 1;
    }
    assert(s@.subrange(0, n as int) =~= s@);
    let ghost done = out.deep_view();
    out.push(String::from_str(s.substring_char(start, n)));
    assert(out.deep_view() =~= done.push(s@.subrange(start as int, n as int)));
    out
}

/// The texts of `parts` written one after another with `sep` between
/// neighbours.
pub fn join(parts: &Vec<String>, sep: &str) -> (out: String)
    ensures
        out@ == joined(parts.deep_view(), sep@),
{
    let mut out = String::new();
    let mut i: usize = 0;
    assert(parts.deep_view().take(0) =~= Seq::<Seq<char>>::empty());
    while i < parts.len()
        invariant
            i <= parts.len(),
            out@ == joined(parts.deep_view().take(i as int), sep@),
        decreases parts.len() - i,
    {
        let ghost before = parts.deep_view().take(i as int);
        let ghost after = parts.deep_view().take(i + 1);
        assert(after.drop_last() =~= before);
        assert(after.last() == parts[i as int]@);
        if i > 0 {
            out.append(sep);
        } else {
            assert(out@ + parts[i as int]@ =~= parts[i as int]@);
        }
        out.append(parts[i].as_str());
        i = i + 1;
    }
    assert(parts.deep_view().take(parts.len() as int) =~= parts.deep_view());
    out
}

/// The text of one decimal digit.
fn digit_text(d: u32) -> (out: &'static str)
    requires
        d < 10,
    ensures
        out@ == seq![digit_char(d as nat)],
{
    proof {
        reveal_strlit("0");
        reveal_strlit("1");
        reveal_strlit("2");
        reveal_strlit("3");
        reveal_strlit("4");
        reveal_strlit("5");
        reveal_strlit("6");
        reveal_strlit("7");
        reveal_strlit("8");
        reveal_strlit("9");
    }
    let out = if d == 0 {
        "0"
    } else if d == 1 {
        "1"
    } else if d == 2 {
        "2"
    } else if d == 3 {
        "3"
    } else if d == 4 {
        "4"
    } else if d == 5 {
        "5"
    } else if d == 6 {
        "6"
    } else if d == 7 {
        "7"
    } else if d == 8 {
        "8"
    } else {
        "9"
    };
    assert(out@ =~= seq![digit_char(d as nat)]);
    out
}

/// The decimal numeral of `n`, without sign or leading zeros.
pub fn decimal_string(n: u32) -> (out: String)
    ensures
        out@ == decimal(n as nat),
    decreases n,
{
    if n < 10 {
        String::from_str(digit_text(n))
    } else {
        let mut out = decimal_string(n / 10);
        out.append(digit_text(n % 10));
        out
    }
}

/// Splitting always leaves at least one piece.
pub proof fn lemma_pieces_nonempty(s: Seq<char>, sep: char)
    ensures
        pieces(s, sep).len() >= 1,
    decreases s.len(),
{
    if s.len() > 0 {
        lemma_pieces_nonempty(s.drop_last(), sep);
    }
}

/// No piece holds the separator it was split on.
pub proof fn lemma_pieces_free_of_separator(s: Seq<char>, sep: char)
    ensures
        forall|k: int, j: int|
            0 <= k < pieces(s, sep).len() && 0 <= j < pieces(s, sep)[k].len() ==> pieces(
                s,
                sep,
            )[k][j] != sep,
    decreases s.len(),
{
    if s.len() > 0 {
        lemma_pieces_nonempty(s.drop_last(), sep);
        lemma_pieces_free_of_separator(s.drop_last(), sep);
    }
}

/// Joining the pieces of a text with the separator it was split on gives the
/// text back.
pub proof fn lemma_join_of_pieces(s: Seq<char>, sep: char)
    ensures
        joined(pieces(s, sep), seq![sep]) == s,
    decreases s.len(),
{
    if s.len() > 0 {
        let shorter = s.drop_last();
        let before = pieces(shorter, sep);
        lemma_pieces_nonempty(shorter, sep);
        lemma_join_of_pieces(shorter, sep);
        if s.last() == sep {
            let all = before.push(Seq::<char>::empty());
            assert(all.drop_last() =~= before);
            assert(joined(all, seq![sep]) =~= shorter + seq![sep]);
            assert(shorter + seq![sep] =~= s);
        } else {
            let grown = before.last().push(s.last());
            let all = before.drop_last().push(grown);
            assert(all.drop_last() =~= before.drop_last());
            if before.len() == 1 {
                assert(joined(before, seq![sep]) == before[0]);
                assert(joined(all, seq![sep]) == grown);
                assert(grown =~= s);
            } else {
                assert(joined(before, seq![sep]) == joined(before.drop_last(), seq![sep]) + seq![
                    sep,
                ] + before.last());
                assert(joined(all, seq![sep]) == joined(before.drop_last(), seq![sep]) + seq![sep]
                    + grown);
                assert(joined(before.drop_last(), seq![sep]) + seq![sep] + grown =~= (joined(
                    before.drop_last(),
                    seq![sep],
                ) + seq![sep] + before.last()).push(s.last()));
                assert(shorter.push(s.last()) =~= s);
            }
        }
    }
}

/// The last piece of a text is how the text ends, and the first piece is how
/// it begins.
pub proof fn lemma_outer_pieces(s: Seq<char>, sep: char)
    ensures
        pieces(s, sep).len() >= 1,
        ends_with(s, pieces(s, sep).last()),
        starts_with(s, pieces(s, sep).first()),
    decreases s.len(),
{
    lemma_pieces_nonempty(s, sep);
    if s.len() == 0 {
        assert(s.subrange(0, 0) =~= Seq::<char>::empty());
    } else {
        let shorter = s.drop_last();
        let before = pieces(shorter, sep);
        lemma_outer_pieces(shorter, sep);
        if s.last() == sep {
            assert(s.subrange(s.len() as int, s.len() as int) =~= Seq::<char>::empty());
            assert(s.subrange(0, before.first().len() as int) =~= shorter.subrange(
                0,
                before.first().len() as int,
            ));
        } else {
            let grown = before.last().push(s.last());
            assert(s.subrange(s.len() - grown.len(), s.len() as int) =~= shorter.subrange(
                shorter.len() - before.last().len(),
                shorter.len() as int,
            ).push(s.last()));
            if before.len() == 1 {
                assert(before.first() == shorter) by {
                    lemma_join_of_pieces(shorter, sep);
                }
                assert(grown =~= s);
                assert(s.subrange(0, s.len() as int) =~= s);
            } else {
                assert(s.subrange(0, before.first().len() as int) =~= shorter.subrange(
                    0,
                    before.first().len() as int,
                ));
            }
        }
    }
}

/// A text that holds the separator has at least two pieces.
pub proof fn lemma_two_pieces(s: Seq<char>, sep: char, k: int)
    requires
        0 <= k < s.len(),
        s[k] == sep,
    ensures
        pieces(s, sep).len() >= 2,
    decreases s.len(),
{
    lemma_pieces_nonempty(s.drop_last(), sep);
    if k < s.len() - 1 {
        lemma_two_pieces(s.drop_last(), sep, k);
    }
}

/// The last piece is what follows the last separator, or the whole text
/// where there is none.
pub proof fn lemma_last_piece(s: Seq<char>, sep: char, k: int)
    requires
        0 <= k <= s.len(),
        forall|j: int| k <= j < s.len() ==> s[j] != sep,
        k == 0 || s[k - 1] == sep,
    ensures
        pieces(s, sep).last() == s.subrange(k, s.len() as int),
    decreases s.len(),
{
    if s.len() == 0 {
        assert(s.subrange(k, s.len() as int) =~= Seq::<char>::empty());
    } else if k == s.len() {
        assert(s.subrange(k, s.len() as int) =~= Seq::<char>::empty());
    } else {
        let shorter = s.drop_last();
        lemma_pieces_nonempty(shorter, sep);
        lemma_last_piece(shorter, sep, k);
        assert(shorter.subrange(k, shorter.len() as int).push(s.last()) =~= s.subrange(
            k,
            s.len() as int,
        ));
    }
}

/// The first piece is what stands before the first separator, or the whole
/// text where there is none.
pub proof fn lemma_first_piece(s: Seq<char>, sep: char, k: int)
    requires
        0 <= k <= s.len(),
        forall|j: int| 0 <= j < k ==> s[j] != sep,
        k == s.len() || s[k] == sep,
    ensures
        pieces(s, sep).first() == s.subrange(0, k),
    decreases s.len(),
{
    if s.len() == 0 {
        assert(s.subrange(0, k) =~= Seq::<char>::empty());
    } else {
        let shorter = s.drop_last();
        let before = pieces(shorter, sep);
        lemma_pieces_nonempty(shorter, sep);
        if k == s.len() {
            lemma_first_piece(shorter, sep, k - 1);
            assert(shorter.subrange(0, shorter.len() as int) =~= shorter);
            lemma_piece_count(shorter, sep);
            lemma_count_of_absent(shorter, sep);
            assert(before.len() == 1);
            assert(shorter.push(s.last()) =~= s.subrange(0, k));
        } else {
            lemma_first_piece(shorter, sep, k);
            assert(shorter.subrange(0, k) =~= s.subrange(0, k));
            if k < s.len() - 1 {
                lemma_two_pieces(shorter, sep, k);
            }
        }
    }
}

/// How often a character occurs in a text.
pub open spec fn count_of(s: Seq<char>, c: char) -> nat
    decreases s.len(),
{
    if s.len() == 0 {
        0
    } else {
        count_of(s.drop_last(), c) + if s.last() == c {
            1nat
        } else {
            0nat
        }
    }
}

/// A text has one piece more than it has separators.
pub proof fn lemma_piece_count(s: Seq<char>, sep: char)
    ensures
        pieces(s, sep).len() == count_of(s, sep) + 1,
    decreases s.len(),
{
    if s.len() > 0 {
        lemma_pieces_nonempty(s.drop_last(), sep);
        lemma_piece_count(s.drop_last(), sep);
    }
}

/// A character that a text does not hold occurs in it no times.
pub proof fn lemma_count_of_absent(s: Seq<char>, c: char)
    requires
        forall|j: int| 0 <= j < s.len() ==> s[j] != c,
    ensures
        count_of(s, c) == 0,
    decreases s.len(),
{
    if s.len() > 0 {
        lemma_count_of_absent(s.drop_last(), c);
    }
}

/// Text without the separator, put behind another text, makes that text's
/// last piece longer and changes no other piece.
pub proof fn lemma_pieces_of_extension(s: Seq<char>, more: Seq<char>, sep: char)
    requires
        forall|j: int| 0 <= j < more.len() ==> more[j] != sep,
    ensures
        pieces(s, sep).len() >= 1,
        pieces(s + more, sep) == pieces(s, sep).drop_last().push(pieces(s, sep).last() + more),
    decreases more.len(),
{
    lemma_pieces_nonempty(s, sep);
    let before = pieces(s, sep);
    if more.len() == 0 {
        assert(s + more =~= s);
        assert(before.last() + more =~= before.last());
        assert(before.drop_last().push(before.last()) =~= before);
    } else {
        let whole = s + more;
        assert(whole.drop_last() =~= s + more.drop_last());
        assert(whole.last() == more.last());
        lemma_pieces_of_extension(s, more.drop_last(), sep);
        let shorter = pieces(s + more.drop_last(), sep);
        assert(shorter.last() == before.last() + more.drop_last());
        assert(shorter.drop_last() =~= before.drop_last());
        assert((before.last() + more.drop_last()).push(more.last()) =~= before.last() + more);
    }
}

/// Splitting what was joined gives the parts back, where there is a part and
/// no part holds the separator.
pub proof fn lemma_pieces_of_joined(parts: Seq<Seq<char>>, sep: char)
    requires
        parts.len() >= 1,
        forall|k: int, j: int|
            0 <= k < parts.len() && 0 <= j < parts[k].len() ==> parts[k][j] != sep,
    ensures
        pieces(joined(parts, seq![sep]), sep) == parts,
    decreases parts.len(),
{
    let last = parts.last();
    assert forall|j: int| 0 <= j < last.len() implies last[j] != sep by {
        assert(parts[parts.len() - 1][j] != sep);
    }
    if parts.len() == 1 {
        let none = Seq::<char>::empty();
        assert(pieces(none, sep) =~= seq![none]);
        lemma_pieces_of_extension(none, last, sep);
        assert(none + last =~= last);
        assert(seq![none].drop_last().push(none + last) =~= parts);
    } else {
        let init = parts.drop_last();
        assert forall|k: int, j: int|
            0 <= k < init.len() && 0 <= j < init[k].len() implies init[k][j] != sep by {
            assert(parts[k][j] != sep);
        }
        lemma_pieces_of_joined(init, sep);
        let head = joined(init, seq![sep]);
        let marked = head + seq![sep];
        assert(marked.drop_last() =~= head);
        assert(marked.last() == sep);
        assert(pieces(marked, sep) == init.push(Seq::<char>::empty()));
        lemma_pieces_of_extension(marked, last, sep);
        assert(Seq::<char>::empty() + last =~= last);
        assert(init.push(Seq::<char>::empty()).drop_last().push(last) =~= parts);
    }
}

} // verus!
