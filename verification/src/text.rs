use vstd::prelude::*;

verus! {

/// Unicode `White_Space`: the chars that `str::trim` removes.
pub open spec fn is_white_space(c: char) -> bool {
    ||| ('\u{9}' <= c && c <= '\u{d}')
    ||| c == ' '
    ||| c == '\u{85}'
    ||| c == '\u{a0}'
    ||| c == '\u{1680}'
    ||| ('\u{2000}' <= c && c <= '\u{200a}')
    ||| c == '\u{2028}'
    ||| c == '\u{2029}'
    ||| c == '\u{202f}'
    ||| c == '\u{205f}'
    ||| c == '\u{3000}'
}

/// `s` without its leading white space.
pub open spec fn trim_start(s: Seq<char>) -> Seq<char>
    decreases s.len(),
{
    if s.len() > 0 && is_white_space(s[0]) {
        trim_start(s.drop_first())
    } else {
        s
    }
}

/// `s` without its trailing white space.
pub open spec fn trim_end(s: Seq<char>) -> Seq<char>
    decreases s.len(),
{
    if s.len() > 0 && is_white_space(s.last()) {
        trim_end(s.drop_last())
    } else {
        s
    }
}

/// `s` without leading and trailing white space (`str::trim`).
pub open spec fn trim(s: Seq<char>) -> Seq<char> {
    trim_end(trim_start(s))
}

/// `s` without its trailing dots (`str::trim_end_matches('.')`).
pub open spec fn trim_end_dots(s: Seq<char>) -> Seq<char>
    decreases s.len(),
{
    if s.len() > 0 && s.last() == '.' {
        trim_end_dots(s.drop_last())
    } else {
        s
    }
}

/// The ASCII lower-case form of one char; every other char is kept.
pub open spec fn ascii_lower_char(c: char) -> char {
    if 'A' <= c && c <= 'Z' {
        ((c as u32) + 32) as char
    } else {
        c
    }
}

/// The ASCII lower-case form of a string (`str::to_ascii_lowercase`).
pub open spec fn ascii_lower(s: Seq<char>) -> Seq<char> {
    s.map_values(|c: char| ascii_lower_char(c))
}

/// Two strings are equal up to ASCII case (`str::eq_ignore_ascii_case`).
pub open spec fn same_ignoring_ascii_case(a: Seq<char>, b: Seq<char>) -> bool {
    ascii_lower(a) == ascii_lower(b)
}

/// Splits `s` at dots, scanning left to right: the pieces completed so far
/// (empty pieces dropped) and the piece still being read.
pub open spec fn split_at_dots(s: Seq<char>) -> (Seq<Seq<char>>, Seq<char>)
    decreases s.len(),
{
    if s.len() == 0 {
        (Seq::empty(), Seq::empty())
    } else {
        let (done, cur) = split_at_dots(s.drop_last());
        if s.last() == '.' {
            (if cur.len() > 0 { done.push(cur) } else { done }, Seq::empty())
        } else {
            (done, cur.push(s.last()))
        }
    }
}

/// The non-empty pieces of `s` between dots, in order.
pub open spec fn dot_pieces(s: Seq<char>) -> Seq<Seq<char>> {
    let (done, cur) = split_at_dots(s);
    if cur.len() > 0 {
        done.push(cur)
    } else {
        done
    }
}

/// The labels of a domain name: the non-empty dot-separated pieces of the
/// name once white space around it and its trailing dots are removed.
pub open spec fn dns_labels(s: Seq<char>) -> Seq<Seq<char>> {
    dot_pieces(trim_end_dots(trim(s)))
}

/// Tests a char for the Unicode `White_Space` property.
pub fn is_white_space_char(c: char) -> (ws: bool)
    ensures
        ws == is_white_space(c),
{
    ('\u{9}' <= c && c <= '\u{d}') || c == ' ' || c == '\u{85}' || c == '\u{a0}' || c == '\u{1680}'
        || ('\u{2000}' <= c && c <= '\u{200a}') || c == '\u{2028}' || c == '\u{2029}' || c
        == '\u{202f}' || c == '\u{205f}' || c == '\u{3000}'
}

/// The chars of a string slice.
pub fn chars_of(s: &str) -> (chars: Vec<char>)
    ensures
        chars@ == s@,
{
    let n = s.unicode_len();
    let mut chars: Vec<char> = Vec::new();
    let mut i: usize = 0;
    while i < n
        invariant
            n == s@.len(),
            i <= n,
            chars@ == s@.take(i as int),
        decreases n - i,
    {
        chars.push(s.get_char(i));
        assert(s@.take(i + 1) =~= s@.take(i as int).push(s@[i as int]));
        i = i + 1;
    }
    assert(s@.take(n as int) =~= s@);
    chars
}

proof fn lemma_trim_start_step(s: Seq<char>, i: int)
    requires
        0 <= i < s.len(),
        is_white_space(s[i]),
    ensures
        trim_start(s.skip(i)) == trim_start(s.skip(i + 1)),
{
    assert(s.skip(i).drop_first() =~= s.skip(i + 1));
}

proof fn lemma_trim_end_step(s: Seq<char>, lo: int, hi: int)
    requires
        0 <= lo < hi <= s.len(),
        is_white_space(s[hi - 1]),
    ensures
        trim_end(s.subrange(lo, hi)) == trim_end(s.subrange(lo, hi - 1)),
{
    assert(s.subrange(lo, hi).drop_last() =~= s.subrange(lo, hi - 1));
}

proof fn lemma_trim_end_dots_step(s: Seq<char>, lo: int, hi: int)
    requires
        0 <= lo < hi <= s.len(),
        s[hi - 1] == '.',
    ensures
        trim_end_dots(s.subrange(lo, hi)) == trim_end_dots(s.subrange(lo, hi - 1)),
{
    assert(s.subrange(lo, hi).drop_last() =~= s.subrange(lo, hi - 1));
}

/// The bounds of `trim(s)` inside `s`.
pub fn trim_bounds(s: &Vec<char>) -> (bounds: (usize, usize))
    ensures
        bounds.0 <= bounds.1 <= s@.len(),
        s@.subrange(bounds.0 as int, bounds.1 as int) == trim(s@),
{
    let n = s.len();
    let mut lo: usize = 0;
    assert(s@.skip(0) =~= s@);
    while lo < n && is_white_space_char(s[lo])
        invariant
            n == s@.len(),
            lo <= n,
            trim_start(s@) == trim_start(s@.skip(lo as int)),
        decreases n - lo,
    {
        proof {
            lemma_trim_start_step(s@, lo as int);
        }
        lo = lo + 1;
    }
    assert(trim_start(s@) == s@.skip(lo as int));
    assert(s@.skip(lo as int) =~= s@.subrange(lo as int, n as int));
    let mut hi: usize = n;
    while hi > lo && is_white_space_char(s[hi - 1])
        invariant
            n == s@.len(),
            lo <= hi <= n,
            trim(s@) == trim_end(s@.subrange(lo as int, hi as int)),
        decreases hi,
    {
        proof {
            lemma_trim_end_step(s@, lo as int, hi as int);
        }
        hi = hi - 1;
    }
    (lo, hi)
}

/// The bounds of `trim_end_dots(trim(s))` inside `s`.
pub fn trimmed_name_bounds(s: &Vec<char>) -> (bounds: (usize, usize))
    ensures
        bounds.0 <= bounds.1 <= s@.len(),
        s@.subrange(bounds.0 as int, bounds.1 as int) == trim_end_dots(trim(s@)),
{
    let (lo, mut hi) = trim_bounds(s);
    while hi > lo && s[hi - 1] == '.'
        invariant
            lo <= hi <= s@.len(),
            trim_end_dots(trim(s@)) == trim_end_dots(s@.subrange(lo as int, hi as int)),
        decreases hi,
    {
        proof {
            lemma_trim_end_dots_step(s@, lo as int, hi as int);
        }
        hi = hi - 1;
    }
    (lo, hi)
}

/// Splits `s[lo..hi]` into its non-empty dot-separated pieces.
pub fn dot_pieces_of(s: &Vec<char>, lo: usize, hi: usize) -> (pieces: Vec<Vec<char>>)
    requires
        lo <= hi <= s@.len(),
    ensures
        pieces.deep_view() == dot_pieces(s@.subrange(lo as int, hi as int)),
{
    let mut done: Vec<Vec<char>> = Vec::new();
    let mut cur: Vec<char> = Vec::new();
    let mut i: usize = lo;
    assert(s@.subrange(lo as int, lo as int) =~= Seq::<char>::empty());
    assert(done.deep_view() =~= Seq::<Seq<char>>::empty());
    while i < hi
        invariant
            lo <= i <= hi <= s@.len(),
            (done.deep_view(), cur@) == split_at_dots(s@.subrange(lo as int, i as int)),
        decreases hi - i,
    {
        let c = s[i];
        let ghost prev = s@.subrange(lo as int, i as int);
        let ghost old_done = done.deep_view();
        assert(s@.subrange(lo as int, i + 1).drop_last() =~= prev);
        assert(s@.subrange(lo as int, i + 1).last() == c);
        if c == '.' {
            if cur.len() > 0 {
                let ghost pv = cur@;
                assert(cur.deep_view() =~= pv);
                done.push(cur);
                assert(done.deep_view() =~= old_done.push(pv));
            }
            cur = Vec::new();
        } else {
            cur.push(c);
        }
        i = i + 1;
    }
    if cur.len() > 0 {
        let ghost old_done = done.deep_view();
        let ghost pv = cur@;
        assert(cur.deep_view() =~= pv);
        done.push(cur);
        assert(done.deep_view() =~= old_done.push(pv));
    }
    done
}

/// The labels of a domain name given as chars.
pub fn labels_of(s: &Vec<char>) -> (found: Vec<Vec<char>>)
    ensures
        found.deep_view() == dns_labels(s@),
{
    let (lo, hi) = trimmed_name_bounds(s);
    dot_pieces_of(s, lo, hi)
}

/// ASCII lower-casing of one char, as a code point.
fn ascii_lower_code(c: char) -> (code: u32)
    ensures
        code == ascii_lower_char(c) as u32,
{
    if 'A' <= c && c <= 'Z' {
        (c as u32) + 32
    } else {
        c as u32
    }
}

/// Compares two labels up to ASCII case.
pub fn same_ignoring_ascii_case_exec(a: &Vec<char>, b: &Vec<char>) -> (same: bool)
    ensures
        same == same_ignoring_ascii_case(a@, b@),
{
    if a.len() != b.len() {
        assert(ascii_lower(a@).len() != ascii_lower(b@).len());
        return false;
    }
    let n = a.len();
    let mut i: usize = 0;
    while i < n
        invariant
            n == a@.len() == b@.len(),
            i <= n,
            forall|k: int| 0 <= k < i ==> ascii_lower_char(a@[k]) == ascii_lower_char(b@[k]),
        decreases n - i,
    {
        if ascii_lower_code(a[i]) != ascii_lower_code(b[i]) {
            assert(ascii_lower(a@)[i as int] != ascii_lower(b@)[i as int]);
            return false;
        }
        i = i + 1;
    }
    assert(ascii_lower(a@) =~= ascii_lower(b@));
    true
}

proof fn lemma_ascii_lower_char_keeps_separators(c: char)
    ensures
        is_white_space(ascii_lower_char(c)) == is_white_space(c),
        (ascii_lower_char(c) == '.') == (c == '.'),
        ascii_lower_char(ascii_lower_char(c)) == ascii_lower_char(c),
{
}

/// ASCII lower-casing twice is lower-casing once.
pub proof fn lemma_ascii_lower_idempotent(s: Seq<char>)
    ensures
        ascii_lower(ascii_lower(s)) == ascii_lower(s),
{
    assert forall|i: int| 0 <= i < s.len() implies ascii_lower(ascii_lower(s))[i] == ascii_lower(
        s,
    )[i] by {
        lemma_ascii_lower_char_keeps_separators(s[i]);
    }
    assert(ascii_lower(ascii_lower(s)) =~= ascii_lower(s));
}

proof fn lemma_trim_start_lower(s: Seq<char>)
    ensures
        trim_start(ascii_lower(s)) == ascii_lower(trim_start(s)),
    decreases s.len(),
{
    if s.len() > 0 {
        lemma_ascii_lower_char_keeps_separators(s[0]);
        assert(ascii_lower(s)[0] == ascii_lower_char(s[0]));
        assert(ascii_lower(s).drop_first() =~= ascii_lower(s.drop_first()));
        lemma_trim_start_lower(s.drop_first());
    }
}

proof fn lemma_trim_end_lower(s: Seq<char>)
    ensures
        trim_end(ascii_lower(s)) == ascii_lower(trim_end(s)),
    decreases s.len(),
{
    if s.len() > 0 {
        lemma_ascii_lower_char_keeps_separators(s.last());
        assert(ascii_lower(s).last() == ascii_lower_char(s.last()));
        assert(ascii_lower(s).drop_last() =~= ascii_lower(s.drop_last()));
        lemma_trim_end_lower(s.drop_last());
    }
}

proof fn lemma_trim_end_dots_lower(s: Seq<char>)
    ensures
        trim_end_dots(ascii_lower(s)) == ascii_lower(trim_end_dots(s)),
    decreases s.len(),
{
    if s.len() > 0 {
        lemma_ascii_lower_char_keeps_separators(s.last());
        assert(ascii_lower(s).last() == ascii_lower_char(s.last()));
        assert(ascii_lower(s).drop_last() =~= ascii_lower(s.drop_last()));
        lemma_trim_end_dots_lower(s.drop_last());
    }
}

/// Lower-cases every piece of a sequence of pieces.
pub open spec fn lower_all(pieces: Seq<Seq<char>>) -> Seq<Seq<char>> {
    pieces.map_values(|p: Seq<char>| ascii_lower(p))
}

proof fn lemma_split_at_dots_lower(s: Seq<char>)
    ensures
        split_at_dots(ascii_lower(s)).0 == lower_all(split_at_dots(s).0),
        split_at_dots(ascii_lower(s)).1 == ascii_lower(split_at_dots(s).1),
    decreases s.len(),
{
    if s.len() == 0 {
        assert(ascii_lower(s) =~= Seq::<char>::empty());
        assert(lower_all(Seq::<Seq<char>>::empty()) =~= Seq::<Seq<char>>::empty());
        assert(ascii_lower(Seq::<char>::empty()) =~= Seq::<char>::empty());
    } else {
        let t = s.drop_last();
        lemma_ascii_lower_char_keeps_separators(s.last());
        assert(ascii_lower(s).last() == ascii_lower_char(s.last()));
        assert(ascii_lower(s).drop_last() =~= ascii_lower(t));
        lemma_split_at_dots_lower(t);
        let (done, cur) = split_at_dots(t);
        if s.last() == '.' {
            if cur.len() > 0 {
                assert(lower_all(done.push(cur)) =~= lower_all(done).push(ascii_lower(cur)));
            }
            assert(ascii_lower(Seq::<char>::empty()) =~= Seq::<char>::empty());
        } else {
            assert(ascii_lower(cur.push(s.last())) =~= ascii_lower(cur).push(
                ascii_lower_char(s.last()),
            ));
        }
    }
}

/// The labels of the ASCII lower-cased name are the lower-cased labels.
pub proof fn lemma_labels_lower(s: Seq<char>)
    ensures
        dns_labels(ascii_lower(s)) == lower_all(dns_labels(s)),
{
    lemma_trim_start_lower(s);
    lemma_trim_end_lower(trim_start(s));
    lemma_trim_end_dots_lower(trim(s));
    let t = trim_end_dots(trim(s));
    lemma_split_at_dots_lower(t);
    let (done, cur) = split_at_dots(t);
    if cur.len() > 0 {
        assert(lower_all(done.push(cur)) =~= lower_all(done).push(ascii_lower(cur)));
    }
}

/// The name `label.name`: `label` put in front of `name` as one more label.
pub open spec fn with_label(label: Seq<char>, name: Seq<char>) -> Seq<char> {
    label + seq!['.'] + name
}

/// `label` holds no dot, so it adds at most one label in front of a name.
pub open spec fn has_no_dot(label: Seq<char>) -> bool {
    forall|i: int| 0 <= i < label.len() ==> label[i] != '.'
}

/// The labels that a dot-free piece contributes: itself, unless it is empty.
pub open spec fn piece_labels(piece: Seq<char>) -> Seq<Seq<char>> {
    if piece.len() > 0 {
        seq![piece]
    } else {
        Seq::empty()
    }
}

proof fn lemma_trim_start_concat(a: Seq<char>, b: Seq<char>)
    requires
        b.len() > 0,
        !is_white_space(b[0]),
    ensures
        trim_start(a + b) == trim_start(a) + b,
    decreases a.len(),
{
    if a.len() == 0 {
        assert(a + b =~= b);
        assert(trim_start(a) + b =~= b);
    } else {
        assert((a + b)[0] == a[0]);
        if is_white_space(a[0]) {
            assert((a + b).drop_first() =~= a.drop_first() + b);
            lemma_trim_start_concat(a.drop_first(), b);
        }
    }
}

proof fn lemma_trim_start_suffix(s: Seq<char>)
    ensures
        trim_start(s).len() <= s.len(),
        trim_start(s) == s.skip(s.len() - trim_start(s).len()),
    decreases s.len(),
{
    if s.len() > 0 && is_white_space(s[0]) {
        lemma_trim_start_suffix(s.drop_first());
        assert(s.drop_first().skip(s.len() - 1 - trim_start(s).len()) =~= s.skip(
            s.len() - trim_start(s).len(),
        ));
    } else {
        assert(s.skip(0) =~= s);
    }
}

proof fn lemma_trim_end_concat(a: Seq<char>, b: Seq<char>)
    requires
        trim_end(b).len() > 0,
    ensures
        trim_end(a + b) == a + trim_end(b),
    decreases b.len(),
{
    assert((a + b).last() == b.last());
    if is_white_space(b.last()) {
        assert((a + b).drop_last() =~= a + b.drop_last());
        lemma_trim_end_concat(a, b.drop_last());
    }
}

proof fn lemma_trim_end_dots_concat(a: Seq<char>, b: Seq<char>)
    requires
        trim_end_dots(b).len() > 0,
    ensures
        trim_end_dots(a + b) == a + trim_end_dots(b),
    decreases b.len(),
{
    assert((a + b).last() == b.last());
    if b.last() == '.' {
        assert((a + b).drop_last() =~= a + b.drop_last());
        lemma_trim_end_dots_concat(a, b.drop_last());
    }
}

proof fn lemma_split_no_dots(label: Seq<char>)
    requires
        forall|i: int| 0 <= i < label.len() ==> label[i] != '.',
    ensures
        split_at_dots(label) == (Seq::<Seq<char>>::empty(), label),
    decreases label.len(),
{
    if label.len() > 0 {
        lemma_split_no_dots(label.drop_last());
        assert(label.drop_last().push(label.last()) =~= label);
    }
}

proof fn lemma_split_after_label(label: Seq<char>, t: Seq<char>)
    requires
        has_no_dot(label),
    ensures
        split_at_dots(label + seq!['.'] + t).0 == piece_labels(label) + split_at_dots(t).0,
        split_at_dots(label + seq!['.'] + t).1 == split_at_dots(t).1,
    decreases t.len(),
{
    let p = label + seq!['.'];
    if t.len() == 0 {
        assert(p + t =~= p);
        assert(p.drop_last() =~= label);
        lemma_split_no_dots(label);
        assert(Seq::<Seq<char>>::empty().push(label) =~= seq![label]);
        assert(piece_labels(label) + Seq::<Seq<char>>::empty() =~= piece_labels(label));
    } else {
        assert((p + t).drop_last() =~= p + t.drop_last());
        assert((p + t).last() == t.last());
        lemma_split_after_label(label, t.drop_last());
        let (done, cur) = split_at_dots(t.drop_last());
        if t.last() == '.' && cur.len() > 0 {
            assert((piece_labels(label) + done).push(cur) =~= piece_labels(label) + done.push(cur));
        }
    }
}

/// Putting a dot-free label in front of a name adds at most one label in
/// front of its labels: the label without its leading white space, unless
/// nothing of it is left.
pub proof fn lemma_labels_with_label(label: Seq<char>, name: Seq<char>)
    requires
        has_no_dot(label),
        name.len() > 0,
        !is_white_space(name[0]),
        dns_labels(name).len() > 0,
    ensures
        dns_labels(with_label(label, name)) == piece_labels(trim_start(label)) + dns_labels(name),
{
    let lead = trim_start(label);
    lemma_trim_start_suffix(label);
    assert forall|i: int| 0 <= i < lead.len() implies lead[i] != '.' by {
        assert(lead[i] == label[label.len() - lead.len() + i]);
    }
    let p = lead + seq!['.'];
    let child = with_label(label, name);
    let dotted = seq!['.'] + name;
    assert(label + seq!['.'] + name =~= label + dotted);
    lemma_trim_start_concat(label, dotted);
    assert(lead + dotted =~= p + name);
    assert(trim_start(child) == p + name);
    assert(trim_start(name) == name);
    // the labels of `name` are not empty, so neither is what trimming leaves
    assert(trim_end_dots(Seq::<char>::empty()) == Seq::<char>::empty());
    if trim(name).len() == 0 {
        assert(trim_end_dots(trim(name)) =~= Seq::<char>::empty());
        assert(split_at_dots(Seq::<char>::empty()).1.len() == 0);
    }
    assert(trim(name).len() > 0);
    lemma_trim_end_concat(p, name);
    assert(trim(child) == p + trim(name));
    let t = trim_end_dots(trim(name));
    if t.len() == 0 {
        assert(split_at_dots(t).1.len() == 0);
    }
    lemma_trim_end_dots_concat(p, trim(name));
    assert(trim_end_dots(trim(child)) == p + t);
    lemma_split_after_label(lead, t);
    let (done, cur) = split_at_dots(t);
    if cur.len() > 0 {
        assert((piece_labels(lead) + done).push(cur) =~= piece_labels(lead) + done.push(cur));
    }
}

proof fn lemma_trim_start_first(s: Seq<char>)
    ensures
        trim_start(s).len() > 0 ==> !is_white_space(trim_start(s)[0]),
    decreases s.len(),
{
    if s.len() > 0 && is_white_space(s[0]) {
        lemma_trim_start_first(s.drop_first());
    }
}

proof fn lemma_trim_end_prefix(s: Seq<char>)
    ensures
        trim_end(s).len() <= s.len(),
        trim_end(s) == s.take(trim_end(s).len() as int),
    decreases s.len(),
{
    if s.len() > 0 && is_white_space(s.last()) {
        lemma_trim_end_prefix(s.drop_last());
        assert(s.drop_last().take(trim_end(s).len() as int) =~= s.take(trim_end(s).len() as int));
    } else {
        assert(s.take(s.len() as int) =~= s);
    }
}

proof fn lemma_trim_end_dots_prefix(s: Seq<char>)
    ensures
        trim_end_dots(s).len() <= s.len(),
        trim_end_dots(s) == s.take(trim_end_dots(s).len() as int),
    decreases s.len(),
{
    if s.len() > 0 && s.last() == '.' {
        lemma_trim_end_dots_prefix(s.drop_last());
        assert(s.drop_last().take(trim_end_dots(s).len() as int) =~= s.take(
            trim_end_dots(s).len() as int,
        ));
    } else {
        assert(s.take(s.len() as int) =~= s);
    }
}

/// What is left of a name once white space around it and its trailing dots
/// are removed does not start with white space.
pub proof fn lemma_trimmed_name_start(s: Seq<char>)
    ensures
        trim_end_dots(trim(s)).len() > 0 ==> !is_white_space(trim_end_dots(trim(s))[0]),
{
    lemma_trim_start_first(s);
    lemma_trim_end_prefix(trim_start(s));
    lemma_trim_end_dots_prefix(trim(s));
}

} // verus!
