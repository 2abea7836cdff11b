use vstd::prelude::*;

verus! {

/// The whitespace characters that line trimming removes: the ASCII space,
/// tab, line feed, vertical tab, form feed and carriage return.
pub open spec fn is_space_char(c: char) -> bool {
    c == ' ' || c == '\t' || c == '\n' || c == '\r' || c == '\x0b' || c == '\x0c'
}

/// `s` with its leading whitespace removed.
pub open spec fn trim_start_rec(s: Seq<char>) -> Seq<char>
    decreases s.len(),
{
    if s.len() > 0 && is_space_char(s[0]) {
        trim_start_rec(s.drop_first())
    } else {
        s
    }
}

/// `s` with its trailing whitespace removed.
pub open spec fn trim_end_rec(s: Seq<char>) -> Seq<char>
    decreases s.len(),
{
    if s.len() > 0 && is_space_char(s.last()) {
        trim_end_rec(s.drop_last())
    } else {
        s
    }
}

/// `s` with leading and trailing whitespace removed.
pub open spec fn trim_spec(s: Seq<char>) -> Seq<char> {
    trim_end_rec(trim_start_rec(s))
}

fn is_space(c: char) -> (r: bool)
    ensures
        r == is_space_char(c),
{
    c == ' ' || c == '\t' || c == '\n' || c == '\r' || c == '\x0b' || c == '\x0c'
}

proof fn lemma_trim_start_skip(s: Seq<char>, k: int)
    requires
        0 <= k <= s.len(),
        forall|i: int| 0 <= i < k ==> is_space_char(s[i]),
    ensures
        trim_start_rec(s) == trim_start_rec(s.skip(k)),
    decreases k,
{
    if k == 0 {
        assert(s.skip(0) =~= s);
    } else {
        assert(s.drop_first() =~= s.skip(1));
        lemma_trim_start_skip(s.skip(1), k - 1);
        assert(s.skip(1).skip(k - 1) =~= s.skip(k));
    }
}

proof fn lemma_trim_end_take(t: Seq<char>, m: int)
    requires
        0 <= m <= t.len(),
        forall|i: int| m <= i < t.len() ==> is_space_char(t[i]),
        m == 0 || !is_space_char(t[m - 1]),
    ensures
        trim_end_rec(t) == t.take(m),
    decreases t.len(),
{
    if t.len() > m {
        assert(is_space_char(t.last()));
        lemma_trim_end_take(t.drop_last(), m);
        assert(t.drop_last().take(m) =~= t.take(m));
    } else {
        assert(t.take(m) =~= t);
    }
}

/// The line with leading and trailing whitespace removed.
pub fn trim<'a>(s: &'a str) -> (r: &'a str)
    ensures
        r@ == trim_spec(s@),
{
    let len = s.unicode_len();
    let mut start: usize = 0;
    while start < len && is_space(s.get_char(start))
        invariant
            0 <= start <= len,
            len == s@.len(),
            forall|i: int| 0 <= i < start ==> is_space_char(s@[i]),
        decreases len - start,
    {
        start += 1;
    }
    let mut end: usize = len;
    while end > start && is_space(s.get_char(end - 1))
        invariant
            start <= end <= len,
            len == s@.len(),
            forall|i: int| end <= i < len ==> is_space_char(s@[i]),
        decreases end,
    {
        end -= 1;
    }
    let r = s.substring_char(start, end);
    proof {
        lemma_trim_start_skip(s@, start as int);
        let t = s@.skip(start as int);
        if start < len {
            assert(t[0] == s@[start as int]);
            assert(trim_start_rec(t) == t);
        } else {
            assert(t.len() == 0);
        }
        lemma_trim_end_take(t, end - start);
        assert(r@ =~= t.take(end - start));
    }
    r
}

/// The index of the first space in `s`, or `s.len()` if there is none.
pub open spec fn first_space(s: Seq<char>) -> int
    decreases s.len(),
{
    if s.len() == 0 {
        0
    } else if s[0] == ' ' {
        0
    } else {
        1 + first_space(s.drop_first())
    }
}

pub proof fn lemma_first_space_bounds(s: Seq<char>)
    ensures
        0 <= first_space(s) <= s.len(),
    decreases s.len(),
{
    if s.len() > 0 && s[0] != ' ' {
        lemma_first_space_bounds(s.drop_first());
    }
}

proof fn lemma_first_space_of(t: Seq<char>, k: int)
    requires
        0 <= k <= t.len(),
        forall|i: int| 0 <= i < k ==> t[i] != ' ',
        k == t.len() || t[k] == ' ',
    ensures
        first_space(t) == k,
    decreases k,
{
    if k == 0 {
    } else {
        lemma_first_space_of(t.drop_first(), k - 1);
    }
}

/// The pieces of `s` between its spaces, in order; adjacent spaces yield
/// empty pieces, and the result always holds at least one piece.
pub open spec fn split_sp(s: Seq<char>) -> Seq<Seq<char>>
    decreases s.len(),
    via split_sp_decreases
{
    if first_space(s) == s.len() {
        seq![s]
    } else {
        seq![s.take(first_space(s))] + split_sp(s.skip(first_space(s) + 1))
    }
}

#[via_fn]
proof fn split_sp_decreases(s: Seq<char>) {
    lemma_first_space_bounds(s);
}

/// Splits the line at single spaces, keeping empty pieces.
pub fn split_spaces(s: &str) -> (toks: Vec<String>)
    ensures
        toks.deep_view() == split_sp(s@),
        toks.len() > 0,
{
    let len = s.unicode_len();
    let mut toks: Vec<String> = Vec::new();
    proof {
        assert(toks.deep_view() =~= Seq::<Seq<char>>::empty());
        assert(s@.skip(0) =~= s@);
        assert(toks.deep_view() + split_sp(s@) =~= split_sp(s@));
    }
    let mut pos: usize = 0;
    let mut j: usize = 0;
    while j < len
        invariant
            pos <= j <= len,
            len == s@.len(),
            forall|i: int| pos <= i < j ==> s@[i] != ' ',
            toks.deep_view() + split_sp(s@.skip(pos as int)) =~= split_sp(s@),
        decreases len - j,
    {
        let c = s.get_char(j);
        if c == ' ' {
            let tok = s.substring_char(pos, j);
            let ghost old_toks = toks.deep_view();
            toks.push(String::from_str(tok));
            proof {
                let t = s@.skip(pos as int);
                lemma_first_space_of(t, j - pos);
                assert(first_space(t) == j - pos);
                assert(t.take(j - pos) =~= s@.subrange(pos as int, j as int));
                assert(t.skip(j - pos + 1) =~= s@.skip(j + 1));
                assert(split_sp(t) == seq![t.take(j - pos)] + split_sp(t.skip(j - pos + 1)));
                assert(toks.deep_view() =~= old_toks.push(tok@));
            }
            pos = j + 1;
        }
        j += 1;
    }
    let tok = s.substring_char(pos, len);
    let ghost old_toks = toks.deep_view();
    toks.push(String::from_str(tok));
    proof {
        let t = s@.skip(pos as int);
        lemma_first_space_of(t, len - pos);
        assert(first_space(t) == t.len());
        assert(tok@ =~= t);
        assert(toks.deep_view() =~= old_toks.push(tok@));
        assert(toks.deep_view() =~= split_sp(s@));
    }
    toks
}

/// The character with an ASCII capital letter replaced by its small form.
pub open spec fn lower_char(c: char) -> char {
    if 'A' <= c && c <= 'Z' {
        ((c as u8) + 32) as char
    } else {
        c
    }
}

/// The text with every ASCII capital letter replaced by its small form.
pub open spec fn lower_spec(s: Seq<char>) -> Seq<char> {
    s.map_values(|c: char| lower_char(c))
}

/// Whether `a`, once lowered, reads exactly as `b`.
pub fn eq_lowered(a: &str, b: &str) -> (r: bool)
    ensures
        r == (lower_spec(a@) == b@),
{
    let alen = a.unicode_len();
    let blen = b.unicode_len();
    if alen != blen {
        proof {
            assert(lower_spec(a@).len() == a@.len());
        }
        return false;
    }
    let mut i: usize = 0;
    while i < alen
        invariant
            0 <= i <= alen,
            alen == a@.len(),
            alen == b@.len(),
            forall|k: int| 0 <= k < i ==> lower_char(a@[k]) == b@[k],
        decreases alen - i,
    {
        let ca = a.get_char(i);
        let cb = b.get_char(i);
        let la = if ca >= 'A' && ca <= 'Z' {
            ((ca as u8) + 32) as char
        } else {
            ca
        };
        if la != cb {
            proof {
                assert(lower_spec(a@)[i as int] != b@[i as int]);
            }
            return false;
        }
        i += 1;
    }
    proof {
        assert(lower_spec(a@) =~= b@);
    }
    true
}

/// Whether the two pieces of text read exactly the same.
pub fn str_eq(a: &str, b: &str) -> (r: bool)
    ensures
        r == (a@ == b@),
{
    let alen = a.unicode_len();
    let blen = b.unicode_len();
    if alen != blen {
        return false;
    }
    let mut i: usize = 0;
    while i < alen
        invariant
            0 <= i <= alen,
            alen == a@.len(),
            alen == b@.len(),
            forall|k: int| 0 <= k < i ==> a@[k] == b@[k],
        decreases alen - i,
    {
        let ca = a.get_char(i);
        let cb = b.get_char(i);
        if ca != cb {
            return false;
        }
        i += 1;
    }
    proof {
        assert(a@ =~= b@);
    }
    true
}

/// The pieces laid end to end with `sep` between each two neighbours.
pub open spec fn join_sp(items: Seq<Seq<char>>, sep: Seq<char>) -> Seq<char>
    decreases items.len(),
{
    if items.len() == 0 {
        Seq::empty()
    } else if items.len() == 1 {
        items[0]
    } else {
        join_sp(items.drop_last(), sep) + sep + items.last()
    }
}

/// Joins the pieces with a comma and a space between each two neighbours.
pub fn join_comma(items: &Vec<String>) -> (r: String)
    ensures
        r@ == join_sp(items.deep_view(), ", "@),
{
    let mut r = String::new();
    let mut i: usize = 0;
    while i < items.len()
        invariant
            0 <= i <= items.len(),
            r@ == join_sp(items.deep_view().take(i as int), ", "@),
        decreases items.len() - i,
    {
        if i > 0 {
            r.append(", ");
        }
        r.append(items[i].as_str());
        proof {
            let views = items.deep_view();
            let upto = views.take(i + 1);
            assert(upto.drop_last() =~= views.take(i as int));
            assert(upto.last() == views[i as int]);
            if i == 0 {
                assert(r@ =~= views.take(1)[0]);
            }
        }
        i += 1;
    }
    proof {
        assert(items.deep_view().take(items.len() as int) =~= items.deep_view());
    }
    r
}

} // verus!
