use vstd::prelude::*;
use vstd::std_specs::iter::IteratorSpec;
use vstd::string::*;

verus! {

broadcast use vstd::string::group_string_axioms;

/// A character that closes a sentence and stays part of it.
pub open spec fn is_terminator(c: char) -> bool {
    c == '.' || c == '!' || c == '?'
}

/// A character that separates words and is never kept at either end of a unit.
/// These are the characters of Unicode's White_Space property.
pub open spec fn is_space(c: char) -> bool {
    let u = c as u32;
    (0x09 <= u && u <= 0x0D) || u == 0x20 || u == 0x85 || u == 0xA0 || u == 0x1680
        || (0x2000 <= u && u <= 0x200A) || u == 0x2028 || u == 0x2029 || u == 0x202F
        || u == 0x205F || u == 0x3000
}

/// Whether `c` is a space character in the sense of `is_space`.
pub fn is_space_char(c: char) -> (r: bool)
    ensures
        r == is_space(c),
{
    let u = c as u32;
    (0x09 <= u && u <= 0x0D) || u == 0x20 || u == 0x85 || u == 0xA0 || u == 0x1680
        || (0x2000 <= u && u <= 0x200A) || u == 0x2028 || u == 0x2029 || u == 0x202F
        || u == 0x205F || u == 0x3000
}

/// `s` with its trailing spaces removed.
pub open spec fn trim_end(s: Seq<char>) -> Seq<char>
    decreases s.len(),
{
    if s.len() > 0 && is_space(s.last()) {
        trim_end(s.drop_last())
    } else {
        s
    }
}

/// Appends the trimmed piece to `done` unless nothing is left of it.
pub open spec fn flush(done: Seq<Seq<char>>, piece: Seq<char>) -> Seq<Seq<char>> {
    if trim_end(piece).len() > 0 {
        done.push(trim_end(piece))
    } else {
        done
    }
}

/// One step of the scan: the finished units and the unit being read, after `c`.
pub open spec fn scan_step(st: (Seq<Seq<char>>, Seq<char>), c: char) -> (Seq<Seq<char>>, Seq<char>) {
    if c == '\n' {
        (flush(st.0, st.1), Seq::empty())
    } else if is_terminator(c) {
        (flush(st.0, st.1.push(c)), Seq::empty())
    } else if is_space(c) && st.1.len() == 0 {
        st
    } else {
        (st.0, st.1.push(c))
    }
}

/// The state of the scan after reading all of `s`.
pub open spec fn scan(s: Seq<char>) -> (Seq<Seq<char>>, Seq<char>)
    decreases s.len(),
{
    if s.len() == 0 {
        (Seq::empty(), Seq::empty())
    } else {
        scan_step(scan(s.drop_last()), s.last())
    }
}

/// The units of `s`: sentences closed by a terminator, lines closed by a line
/// break, each without surrounding spaces, none empty.
pub open spec fn segments(s: Seq<char>) -> Seq<Seq<char>> {
    flush(scan(s).0, scan(s).1)
}

/// The characters of `text`, in order.
pub fn chars_of(text: &str) -> (r: Vec<char>)
    ensures
        r@ == text@,
{
    let mut it = text.chars();
    let mut r: Vec<char> = Vec::new();
    loop
        invariant
            it.remaining() == text@.skip(r@.len() as int),
            r@ == text@.take(r@.len() as int),
            r@.len() <= text@.len(),
        decreases text@.len() - r@.len(),
    {
        match it.next() {
            Some(c) => {
                r.push(c);
                assert(r@ =~= text@.take(r@.len() as int));
            },
            None => {
                assert(r@ =~= text@);
                return r;
            },
        }
    }
}


/// One fragment of the input text, with its position among the fragments.
pub struct TextUnit {
    pub index: usize,
    pub text: String,
}

/// The texts of a sequence of units.
pub open spec fn unit_texts(v: Seq<TextUnit>) -> Seq<Seq<char>> {
    Seq::new(v.len(), |i: int| v[i].text@)
}

/// Each unit carries its own position as index.
pub open spec fn indexed(v: Seq<TextUnit>) -> bool {
    forall|i: int| 0 <= i < v.len() ==> #[trigger] v[i].index == i
}

/// The units of `text`, as `segments` defines them, indexed from zero.
pub open spec fn segmented(text: Seq<char>, v: Seq<TextUnit>) -> bool {
    &&& indexed(v)
    &&& unit_texts(v) == segments(text)
}

/// Appends to `done` the characters `start..end` of `text` without their
/// trailing spaces, unless nothing is left of them.
fn flush_piece(text: &str, cs: &Vec<char>, start: usize, end: usize, done: &mut Vec<TextUnit>)
    requires
        cs@ == text@,
        start <= end <= cs@.len(),
        indexed(old(done)@),
    ensures
        indexed(final(done)@),
        unit_texts(final(done)@) == flush(unit_texts(old(done)@), cs@.subrange(start as int, end as int)),
{
    let mut e: usize = end;
    while e > start && is_space_char(cs[e - 1])
        invariant
            start <= e <= end <= cs@.len(),
            trim_end(cs@.subrange(start as int, e as int)) == trim_end(cs@.subrange(start as int, end as int)),
        decreases e,
    {
        assert(cs@.subrange(start as int, e as int).drop_last() =~= cs@.subrange(start as int, e - 1));
        e = e - 1;
    }
    let ghost piece = cs@.subrange(start as int, e as int);
    assert(trim_end(piece) == piece);
    if e > start {
        let n = done.len();
        let t = text.substring_char(start, e).to_owned();
        done.push(TextUnit { index: n, text: t });
        assert(unit_texts(done@) =~= unit_texts(old(done)@).push(piece));
    } else {
        assert(piece.len() == 0);
    }
}

/// Splits `text` into its units: a unit ends after `.`, `!` or `?` and at a
/// line break, loses its surrounding spaces, and is dropped when nothing is
/// left of it. Empty or blank text gives no unit.
pub fn segment(text: &str) -> (r: Vec<TextUnit>)
    ensures
        segmented(text@, r@),
{
    let cs = chars_of(text);
    let mut done: Vec<TextUnit> = Vec::new();
    let mut has_cur = false;
    let mut start: usize = 0;
    let mut i: usize = 0;
    while i < cs.len()
        invariant
            cs@ == text@,
            i <= cs@.len(),
            start <= i,
            indexed(done@),
            scan(cs@.take(i as int)).0 == unit_texts(done@),
            scan(cs@.take(i as int)).1 == (if has_cur { cs@.subrange(start as int, i as int) } else { Seq::empty() }),
            has_cur ==> start < i,
        decreases cs@.len() - i,
    {
        let c = cs[i];
        assert(cs@.take(i + 1).drop_last() =~= cs@.take(i as int));
        let ghost cur = scan(cs@.take(i as int)).1;
        if c == '\n' {
            if has_cur {
                flush_piece(text, &cs, start, i, &mut done);
            } else {
                flush_piece(text, &cs, i, i, &mut done);
                assert(cs@.subrange(i as int, i as int) =~= Seq::<char>::empty());
            }
            has_cur = false;
        } else if c == '.' || c == '!' || c == '?' {
            let s = if has_cur { start } else { i };
            assert(cur.push(c) =~= cs@.subrange(s as int, i + 1));
            flush_piece(text, &cs, s, i + 1, &mut done);
            has_cur = false;
        } else if is_space_char(c) && !has_cur {
        } else {
            if !has_cur {
                start = i;
                has_cur = true;
            }
            assert(cur.push(c) =~= cs@.subrange(start as int, i + 1));
        }
        i = i + 1;
    }
    assert(cs@.take(i as int) =~= text@);
    if has_cur {
        flush_piece(text, &cs, start, i, &mut done);
    } else {
        flush_piece(text, &cs, i, i, &mut done);
        assert(cs@.subrange(i as int, i as int) =~= Seq::<char>::empty());
    }
    done
}

/// Text made of spaces alone, the empty text included, has no unit.
pub proof fn lemma_blank_text_has_no_units(text: Seq<char>)
    requires
        forall|i: int| 0 <= i < text.len() ==> is_space(#[trigger] text[i]),
    ensures
        segments(text).len() == 0,
{
    lemma_blank_scan(text);
}

proof fn lemma_blank_scan(text: Seq<char>)
    requires
        forall|i: int| 0 <= i < text.len() ==> is_space(#[trigger] text[i]),
    ensures
        scan(text).0 == Seq::<Seq<char>>::empty(),
        scan(text).1 == Seq::<char>::empty(),
    decreases text.len(),
{
    if text.len() > 0 {
        let rest = text.drop_last();
        assert forall|i: int| 0 <= i < rest.len() implies is_space(#[trigger] rest[i]) by {
            assert(rest[i] == text[i]);
        }
        lemma_blank_scan(rest);
        assert(is_space(text[text.len() - 1]));
        assert(trim_end(Seq::<char>::empty()).len() == 0);
    }
}

/// Segmenting the same text twice gives the same units: the same texts at
/// the same indices.
pub proof fn lemma_segmentation_is_deterministic(text: Seq<char>, a: Seq<TextUnit>, b: Seq<TextUnit>)
    requires
        segmented(text, a),
        segmented(text, b),
    ensures
        a.len() == b.len(),
        forall|i: int| 0 <= i < a.len() ==> (#[trigger] a[i]).index == b[i].index && a[i].text@ == b[i].text@,
{
    assert(unit_texts(a).len() == unit_texts(b).len());
    assert forall|i: int| 0 <= i < a.len() implies (#[trigger] a[i]).index == b[i].index && a[i].text@ == b[i].text@ by {
        assert(unit_texts(a)[i] == unit_texts(b)[i]);
    }
}

} // verus!
