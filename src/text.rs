//! Rows of characters and the text they are stored as.

use vstd::prelude::*;

verus! {

/// Relies on `String::push`: appends one character to the end of the string.
#[verifier::external_body]
pub(crate) fn push_char(s: &mut String, c: char)
    ensures
        final(s)@ == old(s)@.push(c),
{
    s.push(c)
}

/// Relies on `String::pop`: removes the last character and returns it, or
/// returns `None` when the string is empty.
#[verifier::external_body]
pub(crate) fn pop_char(s: &mut String) -> (r: Option<char>)
    ensures
        old(s)@.len() > 0 ==> r == Some(old(s)@.last()) && final(s)@ == old(s)@.drop_last(),
        old(s)@.len() == 0 ==> r is None && final(s)@ == old(s)@,
{
    s.pop()
}

/// The characters of each row.
pub open spec fn rows_view(rows: Seq<Vec<char>>) -> Seq<Seq<char>> {
    rows.map_values(|r: Vec<char>| r@)
}

/// The characters of each string.
pub open spec fn strings_view(v: Seq<String>) -> Seq<Seq<char>> {
    v.map_values(|s: String| s@)
}

/// `c` does not occur in `s`.
pub open spec fn lacks(s: Seq<char>, c: char) -> bool {
    forall|i: int| 0 <= i < s.len() ==> s[i] != c
}

/// The pieces of `s` between line feeds, in order; there is one more piece
/// than there are line feeds in `s`.
pub open spec fn pieces(s: Seq<char>) -> Seq<Seq<char>>
    decreases s.len(),
{
    if s.len() == 0 {
        seq![Seq::<char>::empty()]
    } else {
        let init = pieces(s.drop_last());
        if s.last() == '\n' {
            init.push(Seq::<char>::empty())
        } else {
            init.update(init.len() - 1, init.last().push(s.last()))
        }
    }
}

/// The rows that a text holds: its pieces between line feeds, where a line
/// feed at the very end closes the last row rather than opening a new one.
pub open spec fn rows_of_text(s: Seq<char>) -> Seq<Seq<char>> {
    let p = pieces(s);
    if p.len() > 1 && p.last().len() == 0 {
        p.drop_last()
    } else {
        p
    }
}

/// The text of some rows: each row followed by a line feed.
pub open spec fn text_of(rows: Seq<Seq<char>>) -> Seq<char>
    decreases rows.len(),
{
    if rows.len() == 0 {
        Seq::<char>::empty()
    } else {
        text_of(rows.drop_last()) + rows.last().push('\n')
    }
}

/// The character of decimal digit `d`.
pub open spec fn digit(d: nat) -> char {
    ((d + 48) as u8) as char
}

/// The decimal digits of `n`, most significant first, without leading zeros.
pub open spec fn digits(n: nat) -> Seq<char>
    decreases n,
{
    if n < 10 {
        seq![digit(n)]
    } else {
        digits(n / 10).push(digit(n % 10))
    }
}

/// `n` written in decimal, with a leading `-` when it is negative.
pub open spec fn decimal(n: int) -> Seq<char> {
    if n < 0 {
        seq!['-'] + digits((-n) as nat)
    } else {
        digits(n as nat)
    }
}

/// A text has at least one piece.
pub proof fn lemma_pieces_nonempty(s: Seq<char>)
    ensures
        pieces(s).len() >= 1,
    decreases s.len(),
{
    if s.len() > 0 {
        lemma_pieces_nonempty(s.drop_last());
    }
}

/// Characters with no line feed among them extend the last piece.
pub proof fn lemma_pieces_extend(s: Seq<char>, r: Seq<char>)
    requires
        lacks(r, '\n'),
    ensures
        pieces(s + r) == pieces(s).update(pieces(s).len() - 1, pieces(s).last() + r),
    decreases r.len(),
{
    lemma_pieces_nonempty(s);
    if r.len() == 0 {
        assert(s + r =~= s);
        assert(pieces(s).last() + r =~= pieces(s).last());
        assert(pieces(s).update(pieces(s).len() - 1, pieces(s).last()) =~= pieces(s));
    } else {
        let init = r.drop_last();
        lemma_pieces_extend(s, init);
        assert((s + r).drop_last() =~= s + init);
        assert((s + r).last() == r.last());
        assert(r.last() == r[r.len() - 1]);
        let p = pieces(s);
        assert((p.last() + init).push(r.last()) =~= p.last() + r);
        assert(pieces(s + r) =~= p.update(p.len() - 1, p.last() + r));
    }
}

/// Splitting the text of rows that hold no line feed gives the rows back,
/// followed by the empty piece after the final line feed.
pub proof fn lemma_pieces_of_text(rows: Seq<Seq<char>>)
    requires
        forall|i: int| 0 <= i < rows.len() ==> lacks(#[trigger] rows[i], '\n'),
    ensures
        pieces(text_of(rows)) == rows.push(Seq::<char>::empty()),
    decreases rows.len(),
{
    if rows.len() == 0 {
        assert(pieces(Seq::<char>::empty()) =~= seq![Seq::<char>::empty()]);
        assert(rows.push(Seq::<char>::empty()) =~= seq![Seq::<char>::empty()]);
    } else {
        let init = rows.drop_last();
        let last = rows.last();
        assert forall|i: int| 0 <= i < init.len() implies lacks(#[trigger] init[i], '\n') by {
            assert(init[i] == rows[i]);
        }
        lemma_pieces_of_text(init);
        assert(lacks(rows[rows.len() - 1], '\n'));
        let head = text_of(init) + last;
        lemma_pieces_extend(text_of(init), last);
        assert(text_of(rows) =~= head.push('\n'));
        assert(head.push('\n').drop_last() =~= head);
        assert(Seq::<char>::empty() + last =~= last);
        assert(pieces(head) =~= rows);
        assert(pieces(text_of(rows)) =~= rows.push(Seq::<char>::empty()));
    }
}

/// Rows without line feeds, at least one of them, are read back from their
/// text exactly.
pub proof fn lemma_rows_round_trip(rows: Seq<Seq<char>>)
    requires
        rows.len() >= 1,
        forall|i: int| 0 <= i < rows.len() ==> lacks(#[trigger] rows[i], '\n'),
    ensures
        rows_of_text(text_of(rows)) == rows,
{
    lemma_pieces_of_text(rows);
    assert(rows.push(Seq::<char>::empty()).drop_last() =~= rows);
}

/// A string holding exactly the given characters.
pub fn string_of(chars: &Vec<char>) -> (r: String)
    ensures
        r@ == chars@,
{
    let mut r = String::new();
    let mut i: usize = 0;
    while i < chars.len()
        invariant
            i <= chars.len(),
            r@ == chars@.subrange(0, i as int),
        decreases chars.len() - i,
    {
        push_char(&mut r, chars[i]);
        i += 1;
        assert(r@ =~= chars@.subrange(0, i as int));
    }
    assert(chars@.subrange(0, i as int) =~= chars@);
    r
}

/// Whether two strings hold the same characters.
pub fn same_text(a: &str, b: &str) -> (r: bool)
    ensures
        r == (a@ == b@),
{
    let n = a.unicode_len();
    if n != b.unicode_len() {
        return false;
    }
    let mut i: usize = 0;
    while i < n
        invariant
            n == a@.len(),
            n == b@.len(),
            i <= n,
            a@.subrange(0, i as int) == b@.subrange(0, i as int),
        decreases n - i,
    {
        if a.get_char(i) != b.get_char(i) {
            return false;
        }
        i += 1;
        assert(a@.subrange(0, i as int) =~= a@.subrange(0, i - 1).push(a@[i - 1]));
        assert(b@.subrange(0, i as int) =~= b@.subrange(0, i - 1).push(b@[i - 1]));
    }
    assert(a@.subrange(0, n as int) =~= a@);
    assert(b@.subrange(0, n as int) =~= b@);
    true
}

/// Appends `n` in decimal to `out`.
pub fn push_decimal(out: &mut String, n: i64)
    ensures
        final(out)@ == old(out)@ + decimal(n as int),
{
    let mag: u64 = if n < 0 {
        (0i128 - n as i128) as u64
    } else {
        n as u64
    };
    let mut m: u64 = mag;
    let mut digs: Vec<char> = Vec::new();
    while m >= 10
        invariant
            digits(mag as nat) == digits(m as nat) + digs@,
        decreases m,
    {
        let d = ((m % 10) as u8 + 48) as char;
        digs.insert(0, d);
        assert(digits(m as nat) == digits((m / 10) as nat).push(digit((m % 10) as nat)));
        m = m / 10;
        assert(digits(mag as nat) =~= digits(m as nat) + digs@);
    }
    digs.insert(0, (m as u8 + 48) as char);
    assert(digits(mag as nat) =~= digs@);
    let ghost start = out@;
    if n < 0 {
        push_char(out, '-');
    }
    let ghost head = out@;
    let mut i: usize = 0;
    while i < digs.len()
        invariant
            i <= digs@.len(),
            out@ == head + digs@.subrange(0, i as int),
        decreases digs@.len() - i,
    {
        push_char(out, digs[i]);
        i += 1;
        assert(out@ =~= head + digs@.subrange(0, i as int));
    }
    assert(digs@.subrange(0, i as int) =~= digs@);
    assert(out@ =~= start + decimal(n as int));
}

/// Splits a text into rows at its line feeds.
pub fn split_rows(s: &str) -> (r: Vec<Vec<char>>)
    ensures
        rows_view(r@) == rows_of_text(s@),
        r@.len() >= 1,
{
    let mut rows: Vec<Vec<char>> = vec![Vec::new()];
    assert(rows_view(rows@) =~= pieces(s@.subrange(0, 0)));
    for c in it: s.chars()
        invariant
            it.seq() == s@,
            rows_view(rows@) == pieces(s@.subrange(0, it.index() as int)),
            rows@.len() >= 1,
    {
        let ghost i = it.index();
        let ghost before = s@.subrange(0, i as int);
        let ghost after = s@.subrange(0, i + 1);
        assert(after.drop_last() =~= before);
        if c == '\n' {
            rows.push(Vec::new());
            assert(rows_view(rows@) =~= pieces(after));
        } else {
            let last = rows.len() - 1;
            rows[last].push(c);
            assert(rows_view(rows@) =~= pieces(after));
        }
    }
    assert(s@.subrange(0, s@.len() as int) =~= s@);
    if rows.len() > 1 && rows[rows.len() - 1].len() == 0 {
        rows.pop();
        assert(rows_view(rows@) =~= rows_of_text(s@));
    }
    rows
}

/// Appends the text of `rows` to `out`: each row followed by a line feed.
pub fn append_rows(rows: &Vec<Vec<char>>, out: &mut String)
    ensures
        final(out)@ == old(out)@ + text_of(rows_view(rows@)),
{
    let ghost start = out@;
    let mut i: usize = 0;
    while i < rows.len()
        invariant
            i <= rows@.len(),
            out@ == start + text_of(rows_view(rows@.subrange(0, i as int))),
        decreases rows@.len() - i,
    {
        let row = &rows[i];
        let ghost head = out@;
        let mut j: usize = 0;
        while j < row.len()
            invariant
                j <= row@.len(),
                out@ == head + row@.subrange(0, j as int),
            decreases row@.len() - j,
        {
            push_char(out, row[j]);
            j += 1;
            assert(out@ =~= head + row@.subrange(0, j as int));
        }
        push_char(out, '\n');
        i += 1;
        assert(rows_view(rows@.subrange(0, i as int)).drop_last() =~= rows_view(
            rows@.subrange(0, i - 1),
        ));
        assert(row@.subrange(0, j as int) =~= row@);
        assert(out@ =~= start + text_of(rows_view(rows@.subrange(0, i as int))));
    }
    assert(rows@.subrange(0, i as int) =~= rows@);
}

} // verus!
