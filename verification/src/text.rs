//! Text as sequences of characters: trimming, splitting, joining and searching.

use vstd::prelude::*;
use vstd::string::*;

verus! {

/// `String::push` of std: appends the character at the end of the string.
pub assume_specification[ String::push ](s: &mut String, c: char)
    ensures
        final(s)@ == old(s)@.push(c),
;

/// The characters of Unicode's `White_Space` property.
pub open spec fn whitespace(c: char) -> bool {
    let code = c as u32;
    ||| 0x09 <= code <= 0x0d
    ||| code == 0x20
    ||| code == 0x85
    ||| code == 0xa0
    ||| code == 0x1680
    ||| 0x2000 <= code <= 0x200a
    ||| code == 0x2028
    ||| code == 0x2029
    ||| code == 0x202f
    ||| code == 0x205f
    ||| code == 0x3000
}

/// Whether the character is white space.
pub fn is_whitespace(c: char) -> (b: bool)
    ensures
        b == whitespace(c),
{
    let code: u32 = c as u32;
    (0x09 <= code && code <= 0x0d) || code == 0x20 || code == 0x85 || code == 0xa0 || code == 0x1680
        || (0x2000 <= code && code <= 0x200a) || code == 0x2028 || code == 0x2029 || code == 0x202f
        || code == 0x205f || code == 0x3000
}

/// The control characters: the C0 and C1 sets and DEL.
pub open spec fn control(c: char) -> bool {
    c as u32 <= 0x1f || 0x7f <= c as u32 <= 0x9f
}

/// Whether the text holds a control character.
pub open spec fn has_control(s: Seq<char>) -> bool {
    exists|i: int| 0 <= i < s.len() && control(#[trigger] s[i])
}

/// Whether every character is an ASCII digit.
pub open spec fn all_digits(s: Seq<char>) -> bool {
    forall|i: int| 0 <= i < s.len() ==> '0' <= #[trigger] s[i] <= '9'
}

/// The texts of a list of strings.
pub open spec fn texts(v: Seq<String>) -> Seq<Seq<char>> {
    v.map_values(|s: String| s@)
}

pub broadcast proof fn texts_push(v: Seq<String>, s: String)
    ensures
        #[trigger] texts(v.push(s)) == texts(v).push(s@),
{
    assert(texts(v.push(s)) =~= texts(v).push(s@));
}

pub proof fn texts_empty()
    ensures
        texts(Seq::<String>::empty()) == Seq::<Seq<char>>::empty(),
{
    assert(texts(Seq::<String>::empty()) =~= Seq::<Seq<char>>::empty());
}

/// The text without its leading white space.
pub open spec fn trim_start(s: Seq<char>) -> Seq<char>
    decreases s.len(),
{
    if s.len() > 0 && whitespace(s[0]) {
        trim_start(s.drop_first())
    } else {
        s
    }
}

/// The text without its trailing white space.
pub open spec fn trim_end(s: Seq<char>) -> Seq<char>
    decreases s.len(),
{
    if s.len() > 0 && whitespace(s.last()) {
        trim_end(s.drop_last())
    } else {
        s
    }
}

/// The text without white space at either end.
pub open spec fn trim(s: Seq<char>) -> Seq<char> {
    trim_end(trim_start(s))
}

/// The pieces between occurrences of `sep`, in order; one more than there are occurrences.
pub open spec fn split(s: Seq<char>, sep: char) -> Seq<Seq<char>>
    decreases s.len(),
{
    if s.len() == 0 {
        seq![Seq::<char>::empty()]
    } else {
        let before = split(s.drop_last(), sep);
        if s.last() == sep {
            before.push(Seq::<char>::empty())
        } else {
            before.drop_last().push(before.last().push(s.last()))
        }
    }
}

pub proof fn split_nonempty(s: Seq<char>, sep: char)
    ensures
        split(s, sep).len() > 0,
    decreases s.len(),
{
    if s.len() > 0 {
        split_nonempty(s.drop_last(), sep);
    }
}

/// A line without the carriage return before its line feed.
pub open spec fn without_return(line: Seq<char>) -> Seq<char> {
    if line.len() > 0 && line.last() == '\r' {
        line.drop_last()
    } else {
        line
    }
}

/// The lines of a text: its pieces between line feeds, less a last empty one. A carriage return
/// before a line feed belongs to it.
pub open spec fn lines(s: Seq<char>) -> Seq<Seq<char>> {
    let pieces = split(s, '\n');
    let ended = pieces.drop_last().map_values(|line: Seq<char>| without_return(line));
    if pieces.last().len() == 0 {
        ended
    } else {
        ended.push(pieces.last())
    }
}

/// The maximal runs of characters that are not white space, in order.
pub open spec fn words(s: Seq<char>) -> Seq<Seq<char>>
    decreases s.len(),
{
    if s.len() == 0 {
        Seq::empty()
    } else {
        let before = words(s.drop_last());
        let c = s.last();
        if whitespace(c) {
            before
        } else if s.len() == 1 || whitespace(s[s.len() - 2]) {
            before.push(seq![c])
        } else {
            before.drop_last().push(before.last().push(c))
        }
    }
}

/// The pieces one after another with `sep` between each two.
pub open spec fn join(pieces: Seq<Seq<char>>, sep: Seq<char>) -> Seq<char>
    decreases pieces.len(),
{
    if pieces.len() == 0 {
        Seq::empty()
    } else if pieces.len() == 1 {
        pieces[0]
    } else {
        join(pieces.drop_last(), sep) + sep + pieces.last()
    }
}

/// `part` occurs in `s` at position `at`.
pub open spec fn occurs_at(s: Seq<char>, part: Seq<char>, at: int) -> bool {
    0 <= at && at + part.len() <= s.len() && s.subrange(at, at + part.len()) == part
}

/// `part` occurs somewhere in `s`.
pub open spec fn contains(s: Seq<char>, part: Seq<char>) -> bool {
    exists|at: int| occurs_at(s, part, at)
}

/// `s` begins with `part`.
pub open spec fn starts_with(s: Seq<char>, part: Seq<char>) -> bool {
    part.len() <= s.len() && s.subrange(0, part.len() as int) == part
}

/// The character of a decimal digit.
pub open spec fn digit(n: nat) -> char {
    if n == 0 { '0' } else if n == 1 { '1' } else if n == 2 { '2' } else if n == 3 { '3' }
    else if n == 4 { '4' } else if n == 5 { '5' } else if n == 6 { '6' } else if n == 7 { '7' }
    else if n == 8 { '8' } else { '9' }
}

/// A number in decimal, without leading zeros.
pub open spec fn decimal(n: nat) -> Seq<char>
    decreases n,
{
    if n < 10 {
        seq![digit(n)]
    } else {
        decimal(n / 10).push(digit(n % 10))
    }
}

/// The number that a text of decimal digits stands for.
pub open spec fn digits_value(s: Seq<char>) -> nat
    decreases s.len(),
{
    if s.len() == 0 {
        0
    } else {
        digits_value(s.drop_last()) * 10 + (s.last() as u32 - '0' as u32) as nat
    }
}


/// The characters of a text.
pub fn chars_of(s: &str) -> (v: Vec<char>)
    ensures
        v@ == s@,
{
    let mut out: Vec<char> = Vec::new();
    for c in it: s.chars()
        invariant
            it.seq() == s@,
            out@ == s@.take(it.index()),
    {
        proof {
            assert(s@.take(it.index() + 1) =~= s@.take(it.index()).push(c));
        }
        out.push(c);
    }
    proof {
        assert(s@.take(s@.len() as int) =~= s@);
    }
    out
}

/// The text of the characters from `from` up to `to`.
pub fn text_of(chars: &Vec<char>, from: usize, to: usize) -> (s: String)
    requires
        from <= to <= chars@.len(),
    ensures
        s@ == chars@.subrange(from as int, to as int),
{
    let mut out: String = String::new();
    let mut i: usize = from;
    while i < to
        invariant
            from <= i <= to <= chars@.len(),
            out@ == chars@.subrange(from as int, i as int),
        decreases to - i,
    {
        proof {
            assert(chars@.subrange(from as int, i + 1) =~= chars@.subrange(from as int, i as int).push(chars@[i as int]));
        }
        out.push(chars[i]);
        i = i + 1;
    }
    out
}

/// Whether the text holds a control character.
pub fn holds_control(s: &str) -> (b: bool)
    ensures
        b == has_control(s@),
{
    let chars = chars_of(s);
    let mut i: usize = 0;
    while i < chars.len()
        invariant
            i <= chars@.len(),
            chars@ == s@,
            forall|k: int| 0 <= k < i ==> !control(#[trigger] chars@[k]),
        decreases chars@.len() - i,
    {
        let code: u32 = chars[i] as u32;
        if code <= 0x1f || (0x7f <= code && code <= 0x9f) {
            assert(control(s@[i as int]));
            return true;
        }
        i = i + 1;
    }
    false
}

/// Whether every character of the text is an ASCII digit.
pub fn holds_only_digits(s: &str) -> (b: bool)
    ensures
        b == all_digits(s@),
{
    let chars = chars_of(s);
    let mut i: usize = 0;
    while i < chars.len()
        invariant
            i <= chars@.len(),
            chars@ == s@,
            forall|k: int| 0 <= k < i ==> '0' <= #[trigger] chars@[k] <= '9',
        decreases chars@.len() - i,
    {
        if chars[i] < '0' || chars[i] > '9' {
            return false;
        }
        i = i + 1;
    }
    true
}

proof fn trim_start_is_suffix(s: Seq<char>, from: int)
    requires
        0 <= from <= s.len(),
        forall|k: int| 0 <= k < from ==> whitespace(#[trigger] s[k]),
        from < s.len() ==> !whitespace(s[from]),
    ensures
        trim_start(s) == s.subrange(from, s.len() as int),
    decreases s.len(),
{
    if from == 0 {
        assert(s.subrange(0, s.len() as int) =~= s);
    } else {
        assert(whitespace(s[0]));
        let rest = s.drop_first();
        assert forall|k: int| 0 <= k < from - 1 implies whitespace(#[trigger] rest[k]) by {
            assert(rest[k] == s[k + 1]);
        }
        trim_start_is_suffix(rest, from - 1);
        assert(rest.subrange(from - 1, rest.len() as int) =~= s.subrange(from, s.len() as int));
    }
}

proof fn trim_end_is_prefix(s: Seq<char>, to: int)
    requires
        0 <= to <= s.len(),
        forall|k: int| to <= k < s.len() ==> whitespace(#[trigger] s[k]),
        to > 0 ==> !whitespace(s[to - 1]),
    ensures
        trim_end(s) == s.subrange(0, to),
    decreases s.len(),
{
    if to == s.len() {
        assert(s.subrange(0, to) =~= s);
    } else {
        assert(whitespace(s.last()));
        let rest = s.drop_last();
        trim_end_is_prefix(rest, to);
        assert(rest.subrange(0, to) =~= s.subrange(0, to));
    }
}

/// Where the text starts once its leading white space is dropped.
fn start_of(chars: &Vec<char>) -> (from: usize)
    ensures
        from <= chars@.len(),
        trim_start(chars@) == chars@.subrange(from as int, chars@.len() as int),
{
    let mut from: usize = 0;
    while from < chars.len() && is_whitespace(chars[from])
        invariant
            from <= chars@.len(),
            forall|k: int| 0 <= k < from ==> whitespace(#[trigger] chars@[k]),
        decreases chars@.len() - from,
    {
        from = from + 1;
    }
    proof {
        trim_start_is_suffix(chars@, from as int);
    }
    from
}

/// The text without its trailing white space.
pub fn trimmed_end(s: &str) -> (r: String)
    ensures
        r@ == trim_end(s@),
{
    let chars = chars_of(s);
    let mut to: usize = chars.len();
    while to > 0 && is_whitespace(chars[to - 1])
        invariant
            to <= chars@.len(),
            forall|k: int| to <= k < chars@.len() ==> whitespace(#[trigger] chars@[k]),
        decreases to,
    {
        to = to - 1;
    }
    proof {
        trim_end_is_prefix(chars@, to as int);
    }
    text_of(&chars, 0, to)
}

/// The text without white space at either end.
pub fn trimmed(s: &str) -> (r: String)
    ensures
        r@ == trim(s@),
{
    let chars = chars_of(s);
    let from = start_of(&chars);
    let tail = text_of(&chars, from, chars.len());
    trimmed_end(tail.as_str())
}

/// The pieces between occurrences of `sep`.
pub fn split_at_each(s: &str, sep: char) -> (pieces: Vec<String>)
    ensures
        texts(pieces@) == split(s@, sep),
{
    let chars = chars_of(s);
    let mut done: Vec<String> = Vec::new();
    let mut current: String = String::new();
    let mut i: usize = 0;
    proof {
        texts_empty();
        assert(texts(done@).push(current@) =~= split(chars@.take(0), sep));
    }
    while i < chars.len()
        invariant
            i <= chars@.len(),
            texts(done@).push(current@) == split(chars@.take(i as int), sep),
        decreases chars@.len() - i,
    {
        proof {
            assert(chars@.take(i + 1).drop_last() =~= chars@.take(i as int));
            assert(chars@.take(i + 1).last() == chars@[i as int]);
        }
        let ghost before = texts(done@).push(current@);
        if chars[i] == sep {
            proof {
                texts_push(done@, current);
            }
            done.push(current);
            current = String::new();
            assert(texts(done@).push(current@) =~= before.push(Seq::empty()));
        } else {
            current.push(chars[i]);
            assert(texts(done@).push(current@) =~= before.drop_last().push(before.last().push(chars@[i as int])));
        }
        i = i + 1;
    }
    proof {
        texts_push(done@, current);
        assert(chars@.take(chars@.len() as int) =~= s@);
    }
    done.push(current);
    done
}

/// The lines of a text.
pub fn lines_of(s: &str) -> (r: Vec<String>)
    ensures
        texts(r@) == lines(s@),
{
    let pieces = split_at_each(s, '\n');
    let ghost all = split(s@, '\n');
    let ghost bare = |line: Seq<char>| without_return(line);
    proof {
        split_nonempty(s@, '\n');
        assert(texts(pieces@).len() == pieces@.len());
    }
    let last: usize = pieces.len() - 1;
    let mut out: Vec<String> = Vec::new();
    let mut i: usize = 0;
    assert(texts(out@) =~= all.drop_last().take(0).map_values(bare));
    while i < last
        invariant
            i <= last,
            last == pieces@.len() - 1,
            texts(pieces@) == all,
            all.len() == pieces@.len(),
            bare == (|line: Seq<char>| without_return(line)),
            texts(out@) == all.drop_last().take(i as int).map_values(bare),
        decreases last - i,
    {
        let chars = chars_of(pieces[i].as_str());
        proof {
            assert(all[i as int] == pieces@[i as int]@);
            assert(all.drop_last()[i as int] == all[i as int]);
        }
        let line = if chars.len() > 0 && chars[chars.len() - 1] == '\r' {
            let shorter = text_of(&chars, 0, chars.len() - 1);
            assert(shorter@ =~= chars@.drop_last());
            shorter
        } else {
            pieces[i].clone()
        };
        proof {
            texts_push(out@, line);
            assert(line@ == without_return(all[i as int]));
            assert(all.drop_last().take(i + 1).map_values(bare) =~= all.drop_last().take(i as int).map_values(bare).push(line@));
        }
        out.push(line);
        i = i + 1;
    }
    proof {
        assert(all.drop_last().take(last as int) =~= all.drop_last());
        assert(all.last() == pieces@[last as int]@);
    }
    if !pieces[last].as_str().is_empty() {
        let line = pieces[last].clone();
        proof {
            texts_push(out@, line);
        }
        out.push(line);
    }
    out
}

/// The words of a text.
pub fn words_of(s: &str) -> (r: Vec<String>)
    ensures
        texts(r@) == words(s@),
{
    let chars = chars_of(s);
    let mut done: Vec<String> = Vec::new();
    let mut current: String = String::new();
    let mut inside: bool = false;
    let mut i: usize = 0;
    proof {
        texts_empty();
    }
    while i < chars.len()
        invariant
            i <= chars@.len(),
            inside == (i > 0 && !whitespace(chars@[i - 1])),
            words(chars@.take(i as int)) == if inside { texts(done@).push(current@) } else { texts(done@) },
        decreases chars@.len() - i,
    {
        let ghost so_far = chars@.take(i as int);
        let ghost next = chars@.take(i + 1);
        proof {
            assert(next.drop_last() =~= so_far);
            assert(next.last() == chars@[i as int]);
            if i > 0 {
                assert(next[next.len() - 2] == chars@[i - 1]);
            }
        }
        let ghost before = words(so_far);
        if is_whitespace(chars[i]) {
            if inside {
                proof {
                    texts_push(done@, current);
                }
                done.push(current);
                current = String::new();
                inside = false;
            }
        } else {
            if !inside {
                current = String::new();
                inside = true;
                current.push(chars[i]);
                assert(current@ =~= seq![chars@[i as int]]);
            } else {
                current.push(chars[i]);
                assert(texts(done@).push(current@) =~= before.drop_last().push(before.last().push(chars@[i as int])));
            }
        }
        i = i + 1;
    }
    proof {
        texts_push(done@, current);
        assert(chars@.take(chars@.len() as int) =~= s@);
    }
    if inside {
        done.push(current);
    }
    done
}

/// The pieces one after another with `sep` between each two.
pub fn joined(pieces: &Vec<String>, sep: &str) -> (r: String)
    ensures
        r@ == join(texts(pieces@), sep@),
{
    let mut out: String = String::new();
    let mut i: usize = 0;
    proof {
        assert(texts(pieces@).take(0) =~= Seq::<Seq<char>>::empty());
    }
    while i < pieces.len()
        invariant
            i <= pieces@.len(),
            out@ == join(texts(pieces@).take(i as int), sep@),
        decreases pieces@.len() - i,
    {
        proof {
            let all = texts(pieces@);
            assert(all.take(i + 1).drop_last() =~= all.take(i as int));
            assert(all.take(i + 1).last() == pieces@[i as int]@);
            if i == 0 {
                assert(Seq::<char>::empty() + pieces@[0]@ =~= pieces@[0]@);
            }
        }
        if i > 0 {
            out.append(sep);
        }
        out.append(pieces[i].as_str());
        i = i + 1;
    }
    proof {
        assert(texts(pieces@).take(pieces@.len() as int) =~= texts(pieces@));
    }
    out
}

/// Whether `part` occurs in `chars` at `at`.
fn occurs_here(chars: &Vec<char>, part: &Vec<char>, at: usize) -> (b: bool)
    requires
        at + part@.len() <= chars@.len(),
    ensures
        b == occurs_at(chars@, part@, at as int),
{
    let total: usize = chars.len();
    let mut i: usize = 0;
    while i < part.len()
        invariant
            i <= part@.len(),
            total == chars@.len(),
            at + part@.len() <= total,
            forall|k: int| 0 <= k < i ==> chars@[at + k] == #[trigger] part@[k],
        decreases part@.len() - i,
    {
        if chars[at + i] != part[i] {
            proof {
                assert(chars@.subrange(at as int, at + part@.len())[i as int] == chars@[at + i]);
            }
            return false;
        }
        i = i + 1;
    }
    assert(chars@.subrange(at as int, at + part@.len()) =~= part@);
    true
}

/// Whether `part` occurs in the text.
pub fn text_contains(s: &str, part: &str) -> (b: bool)
    ensures
        b == contains(s@, part@),
{
    let chars = chars_of(s);
    let wanted = chars_of(part);
    if wanted.len() > chars.len() {
        return false;
    }
    let last: usize = chars.len() - wanted.len();
    let mut at: usize = 0;
    while at <= last
        invariant
            chars@ == s@,
            wanted@ == part@,
            last + wanted@.len() == chars@.len(),
            at <= last + 1,
            forall|k: int| 0 <= k < at ==> !occurs_at(s@, part@, k),
        decreases last + 1 - at,
    {
        if occurs_here(&chars, &wanted, at) {
            return true;
        }
        if at == last {
            return false;
        }
        at = at + 1;
    }
    false
}

/// Whether the text begins with `part`.
pub fn text_starts_with(s: &str, part: &str) -> (b: bool)
    ensures
        b == starts_with(s@, part@),
{
    let chars = chars_of(s);
    let wanted = chars_of(part);
    wanted.len() <= chars.len() && occurs_here(&chars, &wanted, 0)
}

/// Whether two lists of strings hold the same texts.
pub fn same_texts(a: &Vec<String>, b: &Vec<String>) -> (r: bool)
    ensures
        r == (texts(a@) == texts(b@)),
{
    if a.len() != b.len() {
        assert(texts(a@).len() == a@.len() && texts(b@).len() == b@.len());
        return false;
    }
    let mut i: usize = 0;
    while i < a.len()
        invariant
            i <= a@.len(),
            a@.len() == b@.len(),
            forall|k: int| 0 <= k < i ==> #[trigger] texts(a@)[k] == texts(b@)[k],
        decreases a@.len() - i,
    {
        if a[i] != b[i] {
            proof {
                assert(texts(a@)[i as int] == a@[i as int]@);
                assert(texts(b@)[i as int] == b@[i as int]@);
            }
            return false;
        }
        i = i + 1;
    }
    assert(texts(a@) =~= texts(b@));
    true
}

/// Whether two texts are the same.
pub fn same_text(a: &str, b: &str) -> (r: bool)
    ensures
        r == (a@ == b@),
{
    a.to_owned() == b.to_owned()
}

/// Whether the list holds the text.
pub fn holds_text(list: &Vec<String>, text: &str) -> (r: bool)
    ensures
        r == texts(list@).contains(text@),
{
    let mut i: usize = 0;
    while i < list.len()
        invariant
            i <= list@.len(),
            forall|k: int| 0 <= k < i ==> #[trigger] texts(list@)[k] != text@,
        decreases list@.len() - i,
    {
        if same_text(list[i].as_str(), text) {
            assert(texts(list@)[i as int] == text@);
            return true;
        }
        i = i + 1;
    }
    false
}

/// A copy of a list of strings.
pub fn texts_clone(list: &Vec<String>) -> (r: Vec<String>)
    ensures
        r@ == list@,
{
    let mut out: Vec<String> = Vec::new();
    let mut i: usize = 0;
    while i < list.len()
        invariant
            i <= list@.len(),
            out@ == list@.take(i as int),
        decreases list@.len() - i,
    {
        proof {
            assert(list@.take(i + 1) =~= list@.take(i as int).push(list@[i as int]));
        }
        out.push(list[i].clone());
        i = i + 1;
    }
    assert(list@.take(list@.len() as int) =~= list@);
    out
}

fn digit_of(n: u64) -> (c: char)
    requires
        n < 10,
    ensures
        c == digit(n as nat),
{
    if n == 0 { '0' } else if n == 1 { '1' } else if n == 2 { '2' } else if n == 3 { '3' }
    else if n == 4 { '4' } else if n == 5 { '5' } else if n == 6 { '6' } else if n == 7 { '7' }
    else if n == 8 { '8' } else { '9' }
}

/// A number in decimal.
pub fn decimal_text(n: u64) -> (s: String)
    ensures
        s@ == decimal(n as nat),
    decreases n,
{
    if n < 10 {
        let mut s = String::new();
        s.push(digit_of(n));
        assert(s@ =~= seq![digit(n as nat)]);
        s
    } else {
        let mut s = decimal_text(n / 10);
        s.push(digit_of(n % 10));
        s
    }
}

/// A number in decimal reads back as the same number.
pub proof fn decimal_reads_back(n: nat)
    ensures
        decimal(n).len() > 0,
        all_digits(decimal(n)),
        digits_value(decimal(n)) == n,
    decreases n,
{
    if n < 10 {
        assert(decimal(n).drop_last() =~= Seq::<char>::empty());
        assert(digits_value(Seq::<char>::empty()) == 0);
    } else {
        decimal_reads_back(n / 10);
        assert(decimal(n).drop_last() =~= decimal(n / 10));
        assert(decimal(n).last() == digit(n % 10));
        assert forall|i: int| 0 <= i < decimal(n).len() implies '0' <= #[trigger] decimal(n)[i] <= '9' by {
            if i < decimal(n / 10).len() {
                assert(decimal(n)[i] == decimal(n / 10)[i]);
            }
        }
    }
}

proof fn digits_value_grows(s: Seq<char>, i: int)
    requires
        0 <= i <= s.len(),
        all_digits(s),
    ensures
        digits_value(s.take(i)) <= digits_value(s),
    decreases s.len(),
{
    if i == s.len() {
        assert(s.take(i) =~= s);
    } else {
        assert(s.drop_last().take(i) =~= s.take(i));
        digits_value_grows(s.drop_last(), i);
        assert('0' <= s[s.len() - 1]);
    }
}

/// The number that a non-empty text of ASCII digits stands for, where it fits.
pub fn parse_number(s: &str) -> (r: Option<u64>)
    ensures
        r is Some <==> s@.len() > 0 && all_digits(s@) && digits_value(s@) <= u64::MAX,
        r matches Some(n) ==> n == digits_value(s@),
{
    let chars = chars_of(s);
    if chars.len() == 0 {
        return None;
    }
    if !holds_only_digits(s) {
        return None;
    }
    let mut value: u64 = 0;
    let mut i: usize = 0;
    while i < chars.len()
        invariant
            i <= chars@.len(),
            chars@ == s@,
            all_digits(s@),
            value == digits_value(s@.take(i as int)),
        decreases chars@.len() - i,
    {
        proof {
            assert(s@.take(i + 1).drop_last() =~= s@.take(i as int));
            assert(s@.take(i + 1).last() == s@[i as int]);
            digits_value_grows(s@, i + 1);
            assert('0' <= s@[i as int] <= '9');
        }
        let d: u64 = (chars[i] as u32 - '0' as u32) as u64;
        let scaled = value.checked_mul(10);
        match scaled {
            None => {
                return None;
            },
            Some(tens) => {
                match tens.checked_add(d) {
                    None => {
                        return None;
                    },
                    Some(total) => {
                        value = total;
                    },
                }
            },
        }
        i = i + 1;
    }
    assert(s@.take(s@.len() as int) =~= s@);
    Some(value)
}

proof fn leading_white_space_goes(s: Seq<char>)
    ensures
        trim_start(s).is_suffix_of(s),
        forall|k: int| 0 <= k < s.len() - trim_start(s).len() ==> whitespace(#[trigger] s[k]),
        trim_start(s).len() > 0 ==> !whitespace(trim_start(s)[0]),
    decreases s.len(),
{
    if s.len() > 0 && whitespace(s[0]) {
        let rest = s.drop_first();
        leading_white_space_goes(rest);
        let kept = trim_start(rest);
        assert(rest.skip(rest.len() - kept.len()) =~= s.skip(s.len() - kept.len()));
        assert forall|k: int| 0 <= k < s.len() - kept.len() implies whitespace(#[trigger] s[k]) by {
            if k > 0 {
                assert(rest[k - 1] == s[k]);
            }
        }
    } else {
        assert(s.skip(0) =~= s);
    }
}

proof fn trailing_white_space_goes(s: Seq<char>)
    ensures
        trim_end(s).is_prefix_of(s),
        forall|k: int| trim_end(s).len() <= k < s.len() ==> whitespace(#[trigger] s[k]),
        trim_end(s).len() > 0 ==> !whitespace(trim_end(s).last()),
    decreases s.len(),
{
    if s.len() > 0 && whitespace(s.last()) {
        let rest = s.drop_last();
        trailing_white_space_goes(rest);
        assert forall|k: int| trim_end(s).len() <= k < s.len() implies whitespace(#[trigger] s[k]) by {
            if k < rest.len() {
                assert(rest[k] == s[k]);
            }
        }
    }
}

/// Trimming takes away white space at the ends, all of it and nothing else.
pub proof fn trimming_takes_the_white_space_at_the_ends(s: Seq<char>)
    ensures
        exists|a: Seq<char>, b: Seq<char>| #[trigger]
            (a + trim(s) + b) == s && (forall|k: int| 0 <= k < a.len() ==> whitespace(#[trigger] a[k])) && (forall|
                k: int,
            | 0 <= k < b.len() ==> whitespace(#[trigger] b[k])),
        trim(s).len() > 0 ==> !whitespace(trim(s)[0]) && !whitespace(trim(s).last()),
        trim(trim(s)) == trim(s),
        trim_end(s).len() > 0 ==> !whitespace(trim_end(s).last()),
{
    leading_white_space_goes(s);
    let t = trim_start(s);
    trailing_white_space_goes(t);
    trailing_white_space_goes(s);
    let kept = trim(s);
    let a = s.take(s.len() - t.len());
    let b = t.skip(kept.len() as int);
    assert(t =~= s.skip(s.len() - t.len()));
    assert(kept =~= t.take(kept.len() as int));
    assert(a + kept + b =~= s);
    assert forall|k: int| 0 <= k < b.len() implies whitespace(#[trigger] b[k]) by {
        assert(b[k] == t[kept.len() + k]);
    }
    if kept.len() > 0 {
        assert(kept[0] == t[0]);
    }
}

proof fn pieces_are_free_of(s: Seq<char>, sep: char)
    ensures
        split(s, sep).len() > 0,
        forall|k: int| 0 <= k < split(s, sep).len() ==> !(#[trigger] split(s, sep)[k]).contains(sep),
        join(split(s, sep), seq![sep]) == s,
    decreases s.len(),
{
    if s.len() == 0 {
        assert(s =~= Seq::<char>::empty());
    } else {
        let rest = s.drop_last();
        let before = split(rest, sep);
        let now = split(s, sep);
        pieces_are_free_of(rest, sep);
        assert(rest.push(s.last()) =~= s);
        assert forall|k: int| 0 <= k < now.len() implies !(#[trigger] now[k]).contains(sep) by {
            if now[k].contains(sep) {
                let i = choose|i: int| 0 <= i < now[k].len() && now[k][i] == sep;
                if k < before.len() - 1 || s.last() == sep {
                    assert(k < before.len());
                    assert(now[k] == before[k]);
                    assert(before[k].contains(sep));
                } else {
                    assert(before.last()[i] == sep);
                    assert(before[before.len() - 1].contains(sep));
                }
            }
        }
        if s.last() == sep {
            assert(now.drop_last() =~= before);
            assert(join(now, seq![sep]) =~= rest.push(sep));
        } else if before.len() == 1 {
            assert(join(now, seq![sep]) =~= s);
        } else {
            assert(now.drop_last() =~= before.drop_last());
            assert(join(now, seq![sep]) =~= join(before, seq![sep]).push(s.last()));
        }
    }
}

/// Splitting a text loses nothing: put together with the separator, the pieces are the text again;
/// and none of them holds the separator.
pub proof fn splitting_and_joining_is_the_text(s: Seq<char>, sep: char)
    ensures
        join(split(s, sep), seq![sep]) == s,
        forall|k: int| 0 <= k < split(s, sep).len() ==> !(#[trigger] split(s, sep)[k]).contains(sep),
{
    pieces_are_free_of(s, sep);
}

/// Joined pieces are those before, the separator, and those behind.
pub proof fn joined_pieces_stand_one_after_another(a: Seq<Seq<char>>, b: Seq<Seq<char>>, sep: Seq<char>)
    requires
        a.len() > 0,
        b.len() > 0,
    ensures
        join(a + b, sep) == join(a, sep) + sep + join(b, sep),
    decreases b.len(),
{
    if b.len() == 1 {
        assert((a + b).drop_last() =~= a);
    } else {
        assert((a + b).drop_last() =~= a + b.drop_last());
        joined_pieces_stand_one_after_another(a, b.drop_last(), sep);
        assert(join(a + b, sep) =~= join(a, sep) + sep + join(b, sep));
    }
}

/// No line holds a line feed, and a text is its lines with a line feed after each but perhaps the
/// last, as long as it has no carriage returns.
pub proof fn lines_are_the_text_between_feeds(s: Seq<char>)
    requires
        !s.contains('\r'),
    ensures
        forall|k: int| 0 <= k < lines(s).len() ==> !(#[trigger] lines(s)[k]).contains('\n'),
        s.len() > 0 && s.last() == '\n' ==> join(lines(s), seq!['\n']).push('\n') == s,
        s.len() == 0 || s.last() != '\n' ==> join(lines(s), seq!['\n']) == s,
{
    let pieces = split(s, '\n');
    let ended = pieces.drop_last().map_values(|line: Seq<char>| without_return(line));
    pieces_are_free_of(s, '\n');
    assert forall|k: int| 0 <= k < pieces.len() implies !(#[trigger] pieces[k]).contains('\r') by {
        pieces_hold_only_what_was_there(s, '\n', k, '\r');
    }
    assert forall|k: int| 0 <= k < ended.len() implies #[trigger] ended[k] == pieces[k] by {
        let piece = pieces[k];
        if piece.len() > 0 && piece.last() == '\r' {
            assert(piece[piece.len() - 1] == '\r');
            assert(piece.contains('\r'));
        }
    }
    assert(ended =~= pieces.drop_last());
    last_pieces_end_the_text(s, '\n');
    if pieces.last().len() > 0 {
        assert(lines(s) =~= pieces);
    } else {
        assert(lines(s) =~= pieces.drop_last());
        assert(pieces.last() =~= Seq::<char>::empty());
        if pieces.len() > 1 {
            let front = pieces.drop_last();
            assert(front + seq![pieces.last()] =~= pieces);
            joined_pieces_stand_one_after_another(front, seq![pieces.last()], seq!['\n']);
            assert(join(front, seq!['\n']).push('\n') =~= s);
        }
    }
}

proof fn pieces_hold_only_what_was_there(s: Seq<char>, sep: char, k: int, c: char)
    requires
        0 <= k < split(s, sep).len(),
        !s.contains(c),
    ensures
        !split(s, sep)[k].contains(c),
    decreases s.len(),
{
    if s.len() > 0 {
        let rest = s.drop_last();
        let before = split(rest, sep);
        split_nonempty(rest, sep);
        assert(s.last() != c) by {
            assert(s[s.len() - 1] == s.last());
        }
        if rest.contains(c) {
            let i = choose|i: int| 0 <= i < rest.len() && rest[i] == c;
            assert(s[i] == c);
        }
        if k < before.len() {
            pieces_hold_only_what_was_there(rest, sep, k, c);
        }
        let now = split(s, sep)[k];
        if now.contains(c) {
            let i = choose|i: int| 0 <= i < now.len() && now[i] == c;
            if k < before.len() && i < before[k].len() {
                assert(before[k][i] == c);
            }
        }
    }
}

proof fn last_pieces_end_the_text(s: Seq<char>, sep: char)
    ensures
        split(s, sep).last().len() == 0 <==> s.len() == 0 || s.last() == sep,
        s.len() > 0 && s.last() == sep ==> split(s, sep).len() > 1,
        s.len() == 0 ==> split(s, sep).len() == 1,
{
    if s.len() > 0 {
        split_nonempty(s.drop_last(), sep);
    }
}

/// A carriage return before a line feed belongs to it: with or without it the lines are the same.
pub proof fn returns_belong_to_the_feed(line: Seq<char>)
    ensures
        without_return(line.push('\r')) == line,
        line.len() == 0 || line.last() != '\r' ==> without_return(line) == line,
{
    assert(line.push('\r').drop_last() =~= line);
}

/// A text without white space is one word; white space parts the words before it from those behind.
pub proof fn white_space_parts_words(a: Seq<char>, c: char, b: Seq<char>)
    requires
        whitespace(c),
    ensures
        words(a.push(c) + b) == words(a) + words(b),
    decreases b.len(),
{
    if b.len() == 0 {
        assert(a.push(c) + b =~= a.push(c));
        assert(a.push(c).drop_last() =~= a);
        assert(words(a) + words(b) =~= words(a));
    } else {
        let s = a.push(c) + b;
        let rest = b.drop_last();
        assert(s.drop_last() =~= a.push(c) + rest);
        white_space_parts_words(a, c, rest);
        if whitespace(b.last()) {
        } else if b.len() == 1 {
            assert(s[s.len() - 2] == c);
            assert(rest =~= Seq::<char>::empty());
            assert(words(s) =~= words(a) + words(b));
        } else {
            assert(s[s.len() - 2] == b[b.len() - 2]);
            if whitespace(b[b.len() - 2]) {
                assert(words(s) =~= words(a) + words(b));
            } else {
                words_of_something(rest);
                assert(words(s) =~= words(a) + words(b));
            }
        }
    }
}

proof fn words_of_something(s: Seq<char>)
    requires
        s.len() > 0,
        !whitespace(s.last()),
    ensures
        words(s).len() > 0,
{
}

/// A text without white space is one word.
pub proof fn text_without_white_space_is_one_word(s: Seq<char>)
    requires
        s.len() > 0,
        forall|k: int| 0 <= k < s.len() ==> !whitespace(#[trigger] s[k]),
    ensures
        words(s) == seq![s],
    decreases s.len(),
{
    let rest = s.drop_last();
    assert(s.last() == s[s.len() - 1]);
    if s.len() == 1 {
        assert(words(rest) =~= Seq::<Seq<char>>::empty());
        assert(seq![s.last()] =~= s);
        assert(words(s) =~= seq![s]);
    } else {
        assert forall|k: int| 0 <= k < rest.len() implies !whitespace(#[trigger] rest[k]) by {
            assert(rest[k] == s[k]);
        }
        text_without_white_space_is_one_word(rest);
        assert(rest.push(s.last()) =~= s);
        assert(!whitespace(s[s.len() - 2]));
        assert(words(s) =~= seq![s]);
    }
}

/// A text has no words exactly if it is nothing but white space.
pub proof fn only_white_space_has_no_words(s: Seq<char>)
    ensures
        words(s).len() == 0 <==> (forall|k: int| 0 <= k < s.len() ==> whitespace(#[trigger] s[k])),
    decreases s.len(),
{
    if s.len() > 0 {
        let rest = s.drop_last();
        only_white_space_has_no_words(rest);
        assert(s.last() == s[s.len() - 1]);
        if words(rest).len() == 0 {
            assert forall|k: int| 0 <= k < rest.len() implies whitespace(#[trigger] s[k]) by {
                assert(rest[k] == s[k]);
            }
        } else {
            let k = choose|k: int| 0 <= k < rest.len() && !whitespace(#[trigger] rest[k]);
            assert(!whitespace(s[k]));
        }
    }
}

/// A text begins with a part exactly if it is that part with something behind it.
pub proof fn beginnings_are_followed(s: Seq<char>, part: Seq<char>, rest: Seq<char>)
    ensures
        starts_with(part + rest, part),
        starts_with(s, part) ==> part + s.skip(part.len() as int) == s,
{
    assert((part + rest).subrange(0, part.len() as int) =~= part);
    if starts_with(s, part) {
        assert(part + s.skip(part.len() as int) =~= s);
    }
}

/// A part occurs in a text exactly if something stands before it and something behind it.
pub proof fn occurrences_are_surrounded(s: Seq<char>, part: Seq<char>, before: Seq<char>, behind: Seq<char>)
    ensures
        contains(before + part + behind, part),
        contains(s, part) ==> exists|a: Seq<char>, b: Seq<char>| #[trigger] (a + part + b) == s,
{
    let whole = before + part + behind;
    let at = before.len() as int;
    assert(whole.subrange(at, at + part.len()) =~= part);
    assert(occurs_at(whole, part, at));
    if contains(s, part) {
        let i = choose|i: int| occurs_at(s, part, i);
        assert(s.take(i) + part + s.skip(i + part.len()) =~= s) by {
            assert(s.subrange(i, i + part.len()) == part);
        }
    }
}

/// A number in decimal has no leading zero, and numbers that are written alike are the same.
pub proof fn decimals_have_no_leading_zero(n: nat, other: nat)
    ensures
        decimal(n)[0] == '0' <==> n == 0,
        decimal(n) == decimal(other) ==> n == other,
    decreases n,
{
    decimal_reads_back(n);
    decimal_reads_back(other);
    if n >= 10 {
        decimals_have_no_leading_zero(n / 10, other);
        decimal_reads_back(n / 10);
        assert(decimal(n)[0] == decimal(n / 10)[0]);
    }
}

/// The white space of Unicode: tab to carriage return, the spaces of the different widths, and the
/// separators of lines and paragraphs.
pub proof fn white_space_is_what_unicode_says(c: char)
    ensures
        whitespace(c) <==> (c == '\t' || c == '\n' || c == '\u{b}' || c == '\u{c}' || c == '\r' || c == ' ' || c
            == '\u{85}' || c == '\u{a0}' || c == '\u{1680}' || c == '\u{2000}' || c == '\u{2001}' || c == '\u{2002}'
            || c == '\u{2003}' || c == '\u{2004}' || c == '\u{2005}' || c == '\u{2006}' || c == '\u{2007}' || c
            == '\u{2008}' || c == '\u{2009}' || c == '\u{200a}' || c == '\u{2028}' || c == '\u{2029}' || c
            == '\u{202f}' || c == '\u{205f}' || c == '\u{3000}'),
{
}

/// A text holds a control character exactly if one of its characters is below the space, or the delete
/// character, or one of those that follow it up to the no-break space.
pub proof fn control_characters_are_found(a: Seq<char>, c: char, b: Seq<char>)
    ensures
        has_control(a + b) <==> has_control(a) || has_control(b),
        has_control(seq![c]) <==> (c < ' ' || ('\u{7f}' <= c && c < '\u{a0}')),
        !has_control(Seq::<char>::empty()),
{
    if has_control(a) {
        let i = choose|i: int| 0 <= i < a.len() && control(#[trigger] a[i]);
        assert(control((a + b)[i]));
    }
    if has_control(b) {
        let i = choose|i: int| 0 <= i < b.len() && control(#[trigger] b[i]);
        assert(control((a + b)[a.len() + i]));
    }
    if has_control(a + b) {
        let i = choose|i: int| 0 <= i < (a + b).len() && control(#[trigger] (a + b)[i]);
        if i < a.len() {
            assert(control(a[i]));
        } else {
            assert(control(b[i - a.len()]));
        }
    }
    assert(seq![c][0] == c);
    if control(c) {
        assert(control(seq![c][0]));
    }
}

/// A text is all digits exactly if its parts are.
pub proof fn digits_stay_digits(a: Seq<char>, b: Seq<char>)
    ensures
        all_digits(a + b) <==> all_digits(a) && all_digits(b),
        all_digits(Seq::<char>::empty()),
{
    if all_digits(a + b) {
        assert forall|i: int| 0 <= i < a.len() implies '0' <= #[trigger] a[i] <= '9' by {
            assert((a + b)[i] == a[i]);
        }
        assert forall|i: int| 0 <= i < b.len() implies '0' <= #[trigger] b[i] <= '9' by {
            assert((a + b)[a.len() + i] == b[i]);
        }
    }
}

} // verus!
