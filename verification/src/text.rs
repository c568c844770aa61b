//! Text models shared by the rest of the crate: how integers are written out, and how a line is
//! cut into fields.
use vstd::prelude::*;

verus! {

/// The character of a decimal digit.
pub open spec fn digit_char(d: nat) -> char {
    ((48 + d) as u8) as char
}

/// The decimal digits of `n`, most significant first, without leading zeros.
pub open spec fn digits(n: nat) -> Seq<char>
    decreases n,
{
    if n < 10 {
        seq![digit_char(n)]
    } else {
        digits(n / 10).push(digit_char(n % 10))
    }
}

/// The decimal text of an integer.
pub open spec fn int_text(n: int) -> Seq<char> {
    if n < 0 {
        seq!['-'] + digits((-n) as nat)
    } else {
        digits(n as nat)
    }
}

/// Whether `c` is one of the ten decimal digits.
pub open spec fn is_digit(c: char) -> bool {
    '0' <= c && c <= '9'
}

/// Digits are written with digit characters, and there is at least one of them.
pub proof fn lemma_digits(n: nat)
    ensures
        digits(n).len() >= 1,
        forall|i: int| 0 <= i < digits(n).len() ==> is_digit(#[trigger] digits(n)[i]),
    decreases n,
{
    if n >= 10 {
        lemma_digits(n / 10);
    }
}

/// The views of a list of strings.
pub open spec fn views(v: Seq<String>) -> Seq<Seq<char>> {
    v.map_values(|s: String| s@)
}

/// The pieces of `s` between the occurrences of `c`; one piece where there is none.
pub open spec fn split_on(s: Seq<char>, c: char) -> Seq<Seq<char>>
    decreases s.len(),
{
    if s.len() == 0 {
        seq![Seq::<char>::empty()]
    } else {
        let before = split_on(s.drop_last(), c);
        if s.last() == c {
            before.push(Seq::<char>::empty())
        } else {
            before.drop_last().push(before.last().push(s.last()))
        }
    }
}

/// The pieces one after another, with `c` between them.
pub open spec fn join(parts: Seq<Seq<char>>, c: char) -> Seq<char>
    decreases parts.len(),
{
    if parts.len() == 0 {
        Seq::empty()
    } else if parts.len() == 1 {
        parts[0]
    } else {
        join(parts.drop_last(), c).push(c) + parts.last()
    }
}

/// `s` does not hold the character `c`.
pub open spec fn lacks(s: Seq<char>, c: char) -> bool {
    forall|i: int| 0 <= i < s.len() ==> #[trigger] s[i] != c
}

/// A split has at least one piece.
pub proof fn lemma_split_nonempty(s: Seq<char>, c: char)
    ensures
        split_on(s, c).len() >= 1,
    decreases s.len(),
{
    if s.len() > 0 {
        lemma_split_nonempty(s.drop_last(), c);
    }
}

/// What is added behind a split, and does not hold the separator, goes to the last piece.
pub proof fn lemma_split_tail(a: Seq<char>, b: Seq<char>, c: char)
    requires
        lacks(b, c),
    ensures
        split_on(a + b, c) == split_on(a, c).drop_last().push(split_on(a, c).last() + b),
    decreases b.len(),
{
    lemma_split_nonempty(a, c);
    if b.len() == 0 {
        assert(a + b =~= a);
        assert(split_on(a, c).last() + b =~= split_on(a, c).last());
        assert(split_on(a, c) =~= split_on(a, c).drop_last().push(split_on(a, c).last()));
    } else {
        assert forall|i: int| 0 <= i < b.drop_last().len() implies #[trigger] b.drop_last()[i]
            != c by {
            assert(b[i] != c);
        }
        lemma_split_tail(a, b.drop_last(), c);
        assert((a + b).drop_last() =~= a + b.drop_last());
        assert((a + b).last() == b.last());
        assert(b[b.len() - 1] != c);
        let p = split_on(a, c);
        let q = split_on(a + b.drop_last(), c);
        assert(q == p.drop_last().push(p.last() + b.drop_last()));
        assert(q.drop_last() =~= p.drop_last());
        assert((p.last() + b.drop_last()).push(b.last()) =~= p.last() + b);
    }
}

/// Splitting what was joined gives the pieces back, if none of them holds the separator.
pub proof fn lemma_split_join(parts: Seq<Seq<char>>, c: char)
    requires
        parts.len() >= 1,
        forall|i: int| 0 <= i < parts.len() ==> lacks(#[trigger] parts[i], c),
    ensures
        split_on(join(parts, c), c) == parts,
    decreases parts.len(),
{
    if parts.len() == 1 {
        let e = Seq::<char>::empty();
        lemma_split_tail(e, parts[0], c);
        assert(e + parts[0] =~= parts[0]);
        assert(split_on(e, c) =~= seq![e]);
        assert(split_on(e, c).drop_last().push(split_on(e, c).last() + parts[0]) =~= parts);
    } else {
        let front = parts.drop_last();
        assert forall|i: int| 0 <= i < front.len() implies lacks(#[trigger] front[i], c) by {
            assert(front[i] == parts[i]);
        }
        lemma_split_join(front, c);
        let a = join(front, c).push(c);
        assert(a.drop_last() =~= join(front, c));
        assert(split_on(a, c) == front.push(Seq::<char>::empty()));
        lemma_split_tail(a, parts.last(), c);
        assert(split_on(a, c).drop_last() =~= front);
        assert(Seq::<char>::empty() + parts.last() =~= parts.last());
        assert(front.push(parts.last()) =~= parts);
    }
}

/// `String::push` adds the character at the end.
pub assume_specification[ String::push ](s: &mut String, c: char)
    ensures
        final(s)@ == old(s)@.push(c),
;

/// The characters of a text.
pub fn to_chars(s: &str) -> (r: Vec<char>)
    ensures
        r@ == s@,
{
    let mut v: Vec<char> = Vec::new();
    for c in it: s.chars()
        invariant
            it.seq() == s@,
            v@ == it.seq().take(it.index()),
    {
        v.push(c);
        assert(v@ =~= it.seq().take(it.index() + 1));
    }
    assert(v@ =~= s@);
    v
}

/// The text of the characters from `from` up to `to`.
pub fn from_chars(v: &Vec<char>, from: usize, to: usize) -> (r: String)
    requires
        from <= to <= v.len(),
    ensures
        r@ == v@.subrange(from as int, to as int),
{
    let mut s = String::new();
    let mut i: usize = from;
    while i < to
        invariant
            from <= i <= to <= v.len(),
            s@ == v@.subrange(from as int, i as int),
        decreases to - i,
    {
        s.push(v[i]);
        assert(v@.subrange(from as int, i + 1) =~= v@.subrange(from as int, i as int).push(
            v@[i as int],
        ));
        i = i + 1;
    }
    s
}

/// Whether two texts are the same.
pub fn same_text(a: &str, b: &str) -> (r: bool)
    ensures
        r == (a@ == b@),
{
    a.to_owned() == b.to_owned()
}

/// The pieces of a text between the occurrences of `c`.
pub fn split(s: &str, c: char) -> (r: Vec<String>)
    ensures
        views(r@) == split_on(s@, c),
        r@.len() >= 1,
{
    let v = to_chars(s);
    let mut parts: Vec<String> = Vec::new();
    let mut piece = String::new();
    let mut i: usize = 0;
    proof {
        assert(s@.subrange(0, 0) =~= Seq::<char>::empty());
        assert(views(parts@).push(piece@) =~= split_on(s@.subrange(0, 0), c));
    }
    while i < v.len()
        invariant
            i <= v.len(),
            v@ == s@,
            views(parts@).push(piece@) == split_on(s@.subrange(0, i as int), c),
        decreases v.len() - i,
    {
        let ghost done = s@.subrange(0, i as int);
        let ghost next = s@.subrange(0, i + 1);
        assert(next.drop_last() =~= done);
        assert(next.last() == s@[i as int]);
        let ghost before = views(parts@).push(piece@);
        if v[i] == c {
            let ghost old_parts = parts@;
            parts.push(piece);
            assert(views(parts@) =~= views(old_parts).push(piece@));
            piece = String::new();
            assert(piece@ =~= Seq::<char>::empty());
        } else {
            let ghost old_piece = piece@;
            piece.push(v[i]);
            assert(before.drop_last() =~= views(parts@));
        }
        i = i + 1;
    }
    assert(s@.subrange(0, i as int) =~= s@);
    let ghost old_parts = parts@;
    parts.push(piece);
    assert(views(parts@) =~= views(old_parts).push(piece@));
    parts
}

/// The pieces one after another, with `c` between them.
pub fn join_texts(parts: &Vec<String>, c: char) -> (r: String)
    ensures
        r@ == join(views(parts@), c),
{
    let mut s = String::new();
    let mut i: usize = 0;
    assert(views(parts@).subrange(0, 0) =~= Seq::<Seq<char>>::empty());
    while i < parts.len()
        invariant
            i <= parts.len(),
            s@ == join(views(parts@).subrange(0, i as int), c),
        decreases parts.len() - i,
    {
        let ghost next = views(parts@).subrange(0, i + 1);
        assert(next.drop_last() =~= views(parts@).subrange(0, i as int));
        assert(next.last() == parts@[i as int]@);
        if i > 0 {
            s.push(c);
        }
        s.append(parts[i].as_str());
        proof {
            if i == 0 {
                assert(s@ =~= parts@[0]@);
            }
        }
        i = i + 1;
    }
    assert(views(parts@).subrange(0, i as int) =~= views(parts@));
    s
}

/// `s` with every `from` turned into `to`.
pub open spec fn replaced(s: Seq<char>, from: char, to: char) -> Seq<char> {
    s.map_values(
        |c: char|
            if c == from {
                to
            } else {
                c
            },
    )
}

/// A text with every `from` turned into `to`.
pub fn replace_char(s: &str, from: char, to: char) -> (r: String)
    ensures
        r@ == replaced(s@, from, to),
{
    let v = to_chars(s);
    let mut t = String::new();
    let mut i: usize = 0;
    while i < v.len()
        invariant
            i <= v.len(),
            v@ == s@,
            t@ == replaced(s@, from, to).subrange(0, i as int),
        decreases v.len() - i,
    {
        if v[i] == from {
            t.push(to);
        } else {
            t.push(v[i]);
        }
        i = i + 1;
        assert(t@ =~= replaced(s@, from, to).subrange(0, i as int));
    }
    assert(t@ =~= replaced(s@, from, to));
    t
}

/// The character in lower case, for the ASCII letters.
pub open spec fn ascii_lower(c: char) -> char {
    if 'A' <= c && c <= 'Z' {
        ((c as u32 + 32) as u8) as char
    } else {
        c
    }
}

/// Every character is in the ASCII range.
pub open spec fn all_ascii(s: Seq<char>) -> bool {
    forall|i: int| 0 <= i < s.len() ==> #[trigger] s[i] as u32 <= 127
}

/// What `str::to_lowercase` makes of a text that is not ASCII.
pub uninterp spec fn unicode_lowercase(s: Seq<char>) -> Seq<char>;

/// The lower-case text, where `other` is what comes of a text that is not ASCII.
pub open spec fn lowercase_with(s: Seq<char>, other: Seq<char>) -> Seq<char> {
    if all_ascii(s) {
        s.map_values(|c: char| ascii_lower(c))
    } else {
        other
    }
}

/// The lower-case text.
pub open spec fn lowercase(s: Seq<char>) -> Seq<char> {
    lowercase_with(s, unicode_lowercase(s))
}

/// `str::to_lowercase`: ASCII letters go to lower case one by one and other ASCII characters stay;
/// what becomes of other text is only named.
#[verifier::external_body]
pub(crate) fn to_lowercase(s: &str) -> (r: String)
    ensures
        r@ == lowercase_with(s@, unicode_lowercase(s@)),
{
    s.to_lowercase()
}

/// The decimal text of an unsigned number.
pub fn u64_text(n: u64) -> (r: String)
    ensures
        r@ == int_text(n as int),
    decreases n,
{
    let d = digit_of((n % 10) as u8);
    let mut s = if n < 10 {
        String::new()
    } else {
        u64_text(n / 10)
    };
    s.push(d);
    assert(s@ =~= int_text(n as int));
    s
}

fn digit_of(d: u8) -> (c: char)
    requires
        d < 10,
    ensures
        c == digit_char(d as nat),
{
    (48 + d) as char
}

/// The decimal text of a signed number.
pub fn i64_text(n: i64) -> (r: String)
    ensures
        r@ == int_text(n as int),
{
    if n < 0 {
        let mut s = String::new();
        s.push('-');
        let a: u64 = if n == i64::MIN {
            9223372036854775808
        } else {
            (-n) as u64
        };
        s.append(u64_text(a).as_str());
        assert(s@ =~= int_text(n as int));
        s
    } else {
        u64_text(n as u64)
    }
}

/// The pieces of a split do not hold the separator.
pub proof fn lemma_split_pieces(s: Seq<char>, c: char)
    ensures
        forall|i: int| 0 <= i < split_on(s, c).len() ==> lacks(#[trigger] split_on(s, c)[i], c),
    decreases s.len(),
{
    if s.len() > 0 {
        lemma_split_pieces(s.drop_last(), c);
        lemma_split_nonempty(s.drop_last(), c);
        let before = split_on(s.drop_last(), c);
        assert forall|i: int| 0 <= i < split_on(s, c).len() implies lacks(
            #[trigger] split_on(s, c)[i],
            c,
        ) by {
            if s.last() == c {
                if i < before.len() {
                    assert(split_on(s, c)[i] == before[i]);
                }
            } else {
                if i < before.len() - 1 {
                    assert(split_on(s, c)[i] == before[i]);
                } else {
                    assert(lacks(before[before.len() - 1], c));
                    assert(split_on(s, c)[i] == before.last().push(s.last()));
                }
            }
        }
    }
}

/// `s` without a carriage return at its end.
pub open spec fn without_return(s: Seq<char>) -> Seq<char> {
    if s.len() > 0 && s.last() == '\r' {
        s.drop_last()
    } else {
        s
    }
}

/// The lines of a text. A line ends with a newline, and a carriage return before it belongs to
/// the ending; what follows the last newline is a line only if there is anything.
pub open spec fn lines_of(s: Seq<char>) -> Seq<Seq<char>> {
    let pieces = split_on(s, '\n');
    let ended = pieces.drop_last().map_values(|p: Seq<char>| without_return(p));
    if pieces.last().len() == 0 {
        ended
    } else {
        ended.push(pieces.last())
    }
}

/// The lines one after another, each with a newline behind it.
pub open spec fn text_of_lines(lines: Seq<Seq<char>>) -> Seq<char>
    decreases lines.len(),
{
    if lines.len() == 0 {
        Seq::empty()
    } else {
        text_of_lines(lines.drop_last()) + lines.last().push('\n')
    }
}

/// A line that a text of lines can hold: no newline in it, and no carriage return at its end.
pub open spec fn plain_line(s: Seq<char>) -> bool {
    lacks(s, '\n') && without_return(s) == s
}

/// `s` holds no character that ends a line.
pub open spec fn unbroken(s: Seq<char>) -> bool {
    lacks(s, '\n') && lacks(s, '\r')
}

/// A text without line ends is a line that a text of lines can hold.
pub proof fn lemma_unbroken_is_plain(s: Seq<char>)
    requires
        unbroken(s),
    ensures
        plain_line(s),
{
    if s.len() > 0 {
        assert(s[s.len() - 1] != '\r');
    }
}

/// Texts that lack a character lack it when they are joined, too.
pub proof fn lemma_join_lacks(parts: Seq<Seq<char>>, separator: char, c: char)
    requires
        separator != c,
        forall|i: int| 0 <= i < parts.len() ==> lacks(#[trigger] parts[i], c),
    ensures
        lacks(join(parts, separator), c),
    decreases parts.len(),
{
    if parts.len() > 1 {
        let front = parts.drop_last();
        assert forall|i: int| 0 <= i < front.len() implies lacks(#[trigger] front[i], c) by {
            assert(front[i] == parts[i]);
        }
        lemma_join_lacks(front, separator, c);
        assert(lacks(parts[parts.len() - 1], c));
    }
}

/// The pieces of a text lack what the text lacks.
pub proof fn lemma_split_lacks(s: Seq<char>, separator: char, c: char)
    requires
        lacks(s, c),
    ensures
        forall|i: int|
            0 <= i < split_on(s, separator).len() ==> lacks(#[trigger] split_on(s, separator)[i], c),
    decreases s.len(),
{
    if s.len() > 0 {
        let front = s.drop_last();
        assert(lacks(front, c)) by {
            assert forall|i: int| 0 <= i < front.len() implies #[trigger] front[i] != c by {
                assert(s[i] != c);
            }
        }
        lemma_split_lacks(front, separator, c);
        lemma_split_nonempty(front, separator);
        let before = split_on(front, separator);
        assert(s[s.len() - 1] != c);
        assert forall|i: int| 0 <= i < split_on(s, separator).len() implies lacks(
            #[trigger] split_on(s, separator)[i],
            c,
        ) by {
            if s.last() == separator {
                if i < before.len() {
                    assert(split_on(s, separator)[i] == before[i]);
                }
            } else {
                if i < before.len() - 1 {
                    assert(split_on(s, separator)[i] == before[i]);
                } else {
                    assert(lacks(before[before.len() - 1], c));
                    assert(split_on(s, separator)[i] == before.last().push(s.last()));
                }
            }
        }
    }
}

/// Lines that are written out one after another are read back as they were.
pub proof fn lemma_lines_round_trip(lines: Seq<Seq<char>>)
    requires
        forall|i: int| 0 <= i < lines.len() ==> plain_line(#[trigger] lines[i]),
    ensures
        lines_of(text_of_lines(lines)) == lines,
{
    lemma_split_lines(lines);
    let pieces = split_on(text_of_lines(lines), '\n');
    assert(pieces == lines.push(Seq::empty()));
    assert(pieces.drop_last() =~= lines);
    assert(lines.map_values(|p: Seq<char>| without_return(p)) =~= lines);
}

proof fn lemma_split_lines(lines: Seq<Seq<char>>)
    requires
        forall|i: int| 0 <= i < lines.len() ==> plain_line(#[trigger] lines[i]),
    ensures
        split_on(text_of_lines(lines), '\n') == lines.push(Seq::empty()),
    decreases lines.len(),
{
    let e = Seq::<char>::empty();
    if lines.len() == 0 {
        assert(split_on(e, '\n') =~= lines.push(e));
    } else {
        let front = lines.drop_last();
        assert forall|i: int| 0 <= i < front.len() implies plain_line(#[trigger] front[i]) by {
            assert(front[i] == lines[i]);
        }
        lemma_split_lines(front);
        let a = text_of_lines(front);
        assert(plain_line(lines[lines.len() - 1]));
        lemma_split_tail(a, lines.last(), '\n');
        let p = split_on(a, '\n');
        assert(p.drop_last() =~= front);
        assert(p.last() + lines.last() =~= lines.last());
        assert(front.push(lines.last()) =~= lines);
        let t = text_of_lines(lines);
        assert(t.drop_last() =~= a + lines.last());
        assert(t.last() == '\n');
        assert(split_on(t, '\n') == lines.push(e));
    }
}

/// The lines of a text.
pub fn read_lines(s: &str) -> (r: Vec<String>)
    ensures
        views(r@) == lines_of(s@),
{
    let mut pieces = split(s, '\n');
    let ghost all = views(pieces@);
    let last = pieces.pop().unwrap();
    assert(views(pieces@) =~= all.drop_last());
    assert(last@ == all.last());
    let mut lines: Vec<String> = Vec::new();
    let ghost ended = all.drop_last().map_values(|p: Seq<char>| without_return(p));
    let mut i: usize = 0;
    while i < pieces.len()
        invariant
            i <= pieces.len(),
            views(pieces@) == all.drop_last(),
            ended == all.drop_last().map_values(|p: Seq<char>| without_return(p)),
            views(lines@) == ended.subrange(0, i as int),
        decreases pieces.len() - i,
    {
        let ghost before = lines@;
        let line = drop_return(pieces[i].as_str());
        assert(pieces@[i as int]@ == views(pieces@)[i as int]);
        lines.push(line);
        i = i + 1;
        assert(views(lines@) =~= views(before).push(line@));
        assert(views(lines@) =~= ended.subrange(0, i as int));
    }
    assert(ended.subrange(0, i as int) =~= ended);
    if is_blank(&last) {
        lines
    } else {
        let ghost before = lines@;
        lines.push(last);
        assert(views(lines@) =~= views(before).push(last@));
        lines
    }
}

/// Whether a string is empty.
pub fn is_blank(s: &String) -> (r: bool)
    ensures
        r == (s@.len() == 0),
{
    let v = to_chars(s.as_str());
    v.len() == 0
}

fn drop_return(s: &str) -> (r: String)
    ensures
        r@ == without_return(s@),
{
    let v = to_chars(s);
    if v.len() > 0 && v[v.len() - 1] == '\r' {
        assert(s@.drop_last() =~= s@.subrange(0, s@.len() - 1));
        from_chars(&v, 0, v.len() - 1)
    } else {
        assert(s@ =~= s@.subrange(0, s@.len() as int));
        from_chars(&v, 0, v.len())
    }
}

/// The lines one after another, each with a newline behind it.
pub fn write_lines(lines: &Vec<String>) -> (r: String)
    ensures
        r@ == text_of_lines(views(lines@)),
{
    let mut s = String::new();
    let mut i: usize = 0;
    assert(views(lines@).subrange(0, 0) =~= Seq::<Seq<char>>::empty());
    while i < lines.len()
        invariant
            i <= lines.len(),
            s@ == text_of_lines(views(lines@).subrange(0, i as int)),
        decreases lines.len() - i,
    {
        let ghost next = views(lines@).subrange(0, i + 1);
        assert(next.drop_last() =~= views(lines@).subrange(0, i as int));
        assert(next.last() == lines@[i as int]@);
        let ghost before = s@;
        s.append(lines[i].as_str());
        s.push('\n');
        assert(s@ =~= before + next.last().push('\n'));
        i = i + 1;
    }
    assert(views(lines@).subrange(0, i as int) =~= views(lines@));
    s
}

/// The ASCII characters that count as white space.
pub open spec fn is_ascii_space(c: char) -> bool {
    c == ' ' || ('\t' <= c && c <= '\r')
}

/// `s` without white space at its start.
pub open spec fn without_leading_space(s: Seq<char>) -> Seq<char>
    decreases s.len(),
{
    if s.len() > 0 && is_ascii_space(s[0]) {
        without_leading_space(s.drop_first())
    } else {
        s
    }
}

/// `s` without white space at its end.
pub open spec fn without_trailing_space(s: Seq<char>) -> Seq<char>
    decreases s.len(),
{
    if s.len() > 0 && is_ascii_space(s.last()) {
        without_trailing_space(s.drop_last())
    } else {
        s
    }
}

/// What `str::trim` makes of a text that is not ASCII.
pub uninterp spec fn unicode_trim(s: Seq<char>) -> Seq<char>;

/// The text without white space at its ends, where `other` is what comes of one that is not ASCII.
pub open spec fn trimmed_with(s: Seq<char>, other: Seq<char>) -> Seq<char> {
    if all_ascii(s) {
        without_trailing_space(without_leading_space(s))
    } else {
        other
    }
}

/// The text without white space at its ends.
pub open spec fn trimmed(s: Seq<char>) -> Seq<char> {
    trimmed_with(s, unicode_trim(s))
}

/// `str::trim`: ASCII text loses the white space at its ends; what becomes of other text is only
/// named.
#[verifier::external_body]
pub(crate) fn trim(s: &str) -> (r: String)
    ensures
        r@ == trimmed_with(s@, unicode_trim(s@)),
{
    s.trim().to_string()
}

/// `s` without the characters `c` at its end.
pub open spec fn without_trailing(s: Seq<char>, c: char) -> Seq<char>
    decreases s.len(),
{
    if s.len() > 0 && s.last() == c {
        without_trailing(s.drop_last(), c)
    } else {
        s
    }
}

/// A text without the characters `c` at its end.
pub fn trim_end_char(s: &str, c: char) -> (r: String)
    ensures
        r@ == without_trailing(s@, c),
{
    let v = to_chars(s);
    let mut n: usize = v.len();
    assert(s@.take(n as int) =~= s@);
    while n > 0 && v[n - 1] == c
        invariant
            n <= v.len(),
            v@ == s@,
            without_trailing(s@.take(n as int), c) == without_trailing(s@, c),
        decreases n,
    {
        assert(s@.take(n as int).drop_last() =~= s@.take(n - 1));
        n = n - 1;
    }
    assert(s@.take(n as int) =~= s@.subrange(0, n as int));
    from_chars(&v, 0, n)
}

/// The number that digits stand for; nothing where there are none, or another character is among
/// them.
pub open spec fn digits_value(s: Seq<char>) -> Option<int>
    decreases s.len(),
{
    if s.len() == 0 || !is_digit(s.last()) {
        None
    } else {
        let d = s.last() as int - 48;
        if s.len() == 1 {
            Some(d)
        } else {
            match digits_value(s.drop_last()) {
                Some(v) => Some(v * 10 + d),
                None => None,
            }
        }
    }
}

/// The number that digits with an optional sign stand for.
pub open spec fn integer_value(s: Seq<char>) -> Option<int> {
    if s.len() > 0 && s[0] == '-' {
        match digits_value(s.drop_first()) {
            Some(v) => Some(-v),
            None => None,
        }
    } else if s.len() > 0 && s[0] == '+' {
        digits_value(s.drop_first())
    } else {
        digits_value(s)
    }
}

proof fn lemma_digits_value_grows(s: Seq<char>, n: int)
    requires
        0 < n <= s.len(),
        digits_value(s) is Some,
    ensures
        digits_value(s.take(n)) is Some,
        0 <= digits_value(s.take(n))->0 <= digits_value(s)->0,
    decreases s.len(),
{
    if n < s.len() {
        lemma_digits_value_grows(s.drop_last(), n);
        assert(s.drop_last().take(n) =~= s.take(n));
    } else {
        assert(s.take(n) =~= s);
        if s.len() > 1 {
            lemma_digits_value_grows(s.drop_last(), s.len() - 1);
        }
    }
}

/// The number that the digits from a place on stand for, if it is at most 2^63.
fn digits_from(v: &Vec<char>, from: usize) -> (r: Option<u64>)
    requires
        from <= v.len(),
    ensures
        match digits_value(v@.skip(from as int)) {
            Some(n) => if n <= 9223372036854775808 {
                r is Some && r->0 as int == n
            } else {
                r is None
            },
            None => r is None,
        },
{
    let ghost all = v@.skip(from as int);
    if from == v.len() {
        return None;
    }
    let mut i: usize = from;
    let mut n: u64 = 0;
    while i < v.len()
        invariant
            from <= i <= v.len(),
            from < v.len(),
            all == v@.skip(from as int),
            n <= 9223372036854775808,
            i == from ==> n == 0,
            i > from ==> digits_value(all.take(i - from)) == Some(n as int),
        decreases v.len() - i,
    {
        let c = v[i];
        let ghost next = all.take(i + 1 - from);
        assert(next.last() == c);
        assert(next.drop_last() =~= all.take(i - from));
        if !('0' <= c && c <= '9') {
            proof {
                if digits_value(all) is Some {
                    lemma_digits_value_grows(all, i + 1 - from);
                }
            }
            return None;
        }
        let d: u64 = (c as u32 - 48) as u64;
        if n > 922337203685477580 || (n == 922337203685477580 && d > 8) {
            proof {
                assert(digits_value(next) == Some(n * 10 + d));
                if digits_value(all) is Some {
                    lemma_digits_value_grows(all, i + 1 - from);
                }
            }
            return None;
        }
        n = n * 10 + d;
        i = i + 1;
    }
    assert(all.take(i - from) =~= all);
    Some(n)
}

/// The `i64` that a text stands for: digits with an optional sign, within the range.
pub fn parse_i64(s: &str) -> (r: Option<i64>)
    ensures
        match integer_value(s@) {
            Some(n) => if i64::MIN <= n <= i64::MAX {
                r is Some && r->0 as int == n
            } else {
                r is None
            },
            None => r is None,
        },
{
    let v = to_chars(s);
    assert(v@.skip(0) =~= s@);
    if v.len() == 0 {
        return None;
    }
    assert(v@.skip(1) =~= s@.drop_first());
    if v[0] == '-' {
        proof {
            lemma_digits_value_sign(s@.drop_first());
        }
        match digits_from(&v, 1) {
            Some(n) => {
                if n == 9223372036854775808 {
                    Some(i64::MIN)
                } else {
                    Some(-(n as i64))
                }
            },
            None => None,
        }
    } else {
        let from: usize = if v[0] == '+' {
            1
        } else {
            0
        };
        proof {
            lemma_digits_value_sign(v@.skip(from as int));
        }
        match digits_from(&v, from) {
            Some(n) => {
                if n <= 9223372036854775807 {
                    Some(n as i64)
                } else {
                    None
                }
            },
            None => None,
        }
    }
}

proof fn lemma_digits_value_sign(s: Seq<char>)
    ensures
        digits_value(s) is Some ==> digits_value(s)->0 >= 0,
    decreases s.len(),
{
    if s.len() > 1 {
        lemma_digits_value_sign(s.drop_last());
    }
}

/// What `{:?}` writes for a list of texts.
pub uninterp spec fn debug_list(texts: Seq<Seq<char>>) -> Seq<char>;

/// The `Debug` form of a list of strings, by `std::format!`. Which text that is is only named.
#[verifier::external_body]
pub(crate) fn debug_text(texts: &Vec<String>) -> (r: String)
    ensures
        r@ == debug_list(views(texts@)),
{
    format!("{:?}", texts)
}

/// Whether a text is in a list.
pub fn contains_text(list: &Vec<String>, text: &str) -> (r: bool)
    ensures
        r == views(list@).contains(text@),
{
    let mut i: usize = 0;
    while i < list.len()
        invariant
            forall|k: int| 0 <= k < i ==> (#[trigger] list@[k])@ != text@,
        decreases list.len() - i,
    {
        if same_text(list[i].as_str(), text) {
            assert(views(list@)[i as int] == text@);
            return true;
        }
        i = i + 1;
    }
    proof {
        if views(list@).contains(text@) {
            let k = choose|k: int| 0 <= k < views(list@).len() && views(list@)[k] == text@;
            assert(list@[k]@ == text@);
        }
    }
    false
}

/// `s` begins with `prefix`.
pub open spec fn begins_with(s: Seq<char>, prefix: Seq<char>) -> bool {
    prefix.len() <= s.len() && s.take(prefix.len() as int) == prefix
}

/// Whether a text begins with another.
pub fn starts_with(s: &str, prefix: &str) -> (r: bool)
    ensures
        r == begins_with(s@, prefix@),
{
    let v = to_chars(s);
    let p = to_chars(prefix);
    if p.len() > v.len() {
        return false;
    }
    let mut i: usize = 0;
    while i < p.len()
        invariant
            i <= p.len() <= v.len(),
            v@ == s@,
            p@ == prefix@,
            forall|k: int| 0 <= k < i ==> v@[k] == p@[k],
        decreases p.len() - i,
    {
        if v[i] != p[i] {
            assert(s@.take(prefix@.len() as int)[i as int] != prefix@[i as int]);
            return false;
        }
        i = i + 1;
    }
    assert(s@.take(prefix@.len() as int) =~= prefix@);
    true
}

} // verus!
