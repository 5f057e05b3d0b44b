//! Chat screen state: the message shapes a conversation renderer shows,
//! and the scrub that strips leaked function tags from streamed text.

use vstd::prelude::*;
use vstd::string::StrSliceExecFns;
use crate::strutil::push_char;

verus! {

/// A tool invocation shown inline in the conversation.
#[derive(Clone, Debug)]
pub struct ToolInfo {
    pub name: String,
    pub input: String,
    pub result: String,
    pub is_error: bool,
}

/// One message of the conversation.
#[derive(Clone, Debug)]
pub struct ChatMessage {
    pub role: Role,
    pub text: String,
    pub tool: Option<ToolInfo>,
}

/// Who a message came from.
#[derive(Clone, Copy, PartialEq, Eq, Structural, Debug)]
pub enum Role {
    User,
    Agent,
    System,
    Tool,
}

/// What the chat screen asks its driver to do next.
#[derive(Debug)]
pub enum ChatAction {
    Continue,
    SendMessage(String),
    Back,
    SlashCommand(String),
}

/// The first position at or after which `pat` occurs in `s`, or `-1`.
pub open spec fn find_sub(s: Seq<char>, pat: Seq<char>) -> int
    decreases s.len(),
{
    if pat.len() == 0 {
        0
    } else if s.len() < pat.len() {
        -1
    } else if s.take(pat.len() as int) == pat {
        0
    } else {
        let r = find_sub(s.drop_first(), pat);
        if r < 0 {
            -1
        } else {
            1 + r
        }
    }
}

/// `pat` occurs in `s` at position `k`.
pub open spec fn match_at(s: Seq<char>, pat: Seq<char>, k: int) -> bool {
    0 <= k && k + pat.len() <= s.len() && s.subrange(k, k + pat.len()) == pat
}

proof fn lemma_find_sub_none(s: Seq<char>, pat: Seq<char>)
    requires
        forall|k: int| !match_at(s, pat, k),
    ensures
        find_sub(s, pat) == -1,
    decreases s.len(),
{
    if pat.len() == 0 {
        assert(s.subrange(0, 0) =~= pat);
        assert(match_at(s, pat, 0));
    } else if s.len() >= pat.len() {
        assert(s.take(pat.len() as int) =~= s.subrange(0, pat.len() as int));
        assert(!match_at(s, pat, 0));
        assert forall|k: int| !match_at(s.drop_first(), pat, k) by {
            if 0 <= k && k + pat.len() <= s.drop_first().len() {
                assert(s.drop_first().subrange(k, k + pat.len() as int) =~= s.subrange(
                    k + 1,
                    k + 1 + pat.len() as int,
                ));
                assert(!match_at(s, pat, k + 1));
            }
        }
        lemma_find_sub_none(s.drop_first(), pat);
    }
}

proof fn lemma_find_sub_at(s: Seq<char>, pat: Seq<char>, k: int)
    requires
        match_at(s, pat, k),
        forall|t: int| 0 <= t < k ==> !match_at(s, pat, t),
    ensures
        find_sub(s, pat) == k,
    decreases k,
{
    assert(s.len() >= pat.len());
    if pat.len() == 0 {
        assert(s.subrange(k, k) =~= s.subrange(0, 0));
        if k > 0 {
            assert(match_at(s, pat, 0));
        }
    } else if k == 0 {
        assert(s.take(pat.len() as int) =~= s.subrange(0, pat.len() as int));
    } else {
        assert(s.take(pat.len() as int) =~= s.subrange(0, pat.len() as int));
        assert(!match_at(s, pat, 0));
        assert(s.drop_first().subrange(k - 1, k - 1 + pat.len() as int) =~= s.subrange(
            k,
            k + pat.len() as int,
        ));
        assert(match_at(s.drop_first(), pat, k - 1));
        assert forall|t: int| 0 <= t < k - 1 implies !match_at(s.drop_first(), pat, t) by {
            if t + pat.len() <= s.drop_first().len() {
                assert(s.drop_first().subrange(t, t + pat.len() as int) =~= s.subrange(
                    t + 1,
                    t + 1 + pat.len() as int,
                ));
                assert(!match_at(s, pat, t + 1));
            }
        }
        lemma_find_sub_at(s.drop_first(), pat, k - 1);
    }
}

/// The text with every `<function>...</function>` span removed; an
/// unclosed opening tag drops everything from the tag to the end.
pub open spec fn strip_tags(s: Seq<char>) -> Seq<char>
    decreases s.len(),
{
    let open_tag = "<function>"@;
    let close_tag = "</function>"@;
    let i = find_sub(s, open_tag);
    if i < 0 {
        s
    } else {
        let after = s.skip(i + 10);
        let j = find_sub(after, close_tag);
        if j < 0 {
            s.take(i)
        } else if i + 21 + j <= s.len() {
            s.take(i) + strip_tags(s.skip(i + 10 + j + 11))
        } else {
            s.take(i)
        }
    }
}

fn chars_of(s: &str) -> (r: Vec<char>)
    ensures
        r@ == s@,
{
    let n = s.unicode_len();
    let mut r: Vec<char> = Vec::new();
    let mut i: usize = 0;
    while i < n
        invariant
            i <= n,
            n == s@.len(),
            r@ == s@.take(i as int),
        decreases n - i,
    {
        let c = s.get_char(i);
        r.push(c);
        proof {
            assert(r@ =~= s@.take(i as int + 1));
        }
        i = i + 1;
    }
    proof {
        assert(s@.take(n as int) =~= s@);
    }
    r
}

fn tag_at(chars: &Vec<char>, pos: usize, tag: &Vec<char>) -> (r: bool)
    requires
        pos <= chars@.len(),
    ensures
        r == match_at(chars@, tag@, pos as int),
{
    let tlen = tag.len();
    if chars.len() - pos < tlen {
        return false;
    }
    let mut j: usize = 0;
    while j < tlen
        invariant
            pos + tlen <= chars@.len(),
            tlen == tag@.len(),
            j <= tlen,
            chars@.subrange(pos as int, pos + j) == tag@.take(j as int),
        decreases tlen - j,
    {
        proof {
            assert(chars@.subrange(pos as int, pos + j + 1) =~= chars@.subrange(
                pos as int,
                pos + j,
            ).push(chars@[pos + j]));
            assert(tag@.take(j as int + 1) =~= tag@.take(j as int).push(tag@[j as int]));
        }
        if chars[pos + j] != tag[j] {
            proof {
                if chars@.subrange(pos as int, pos + j + 1) == tag@.take(j as int + 1) {
                    assert(chars@.subrange(pos as int, pos + j + 1).last() == tag@.take(
                        j as int + 1,
                    ).last());
                    assert(false);
                }
                if match_at(chars@, tag@, pos as int) {
                    assert(chars@.subrange(pos as int, pos + tlen)[j as int] == tag@[j as int]);
                    assert(false);
                }
            }
            return false;
        }
        j = j + 1;
    }
    proof {
        assert(tag@.take(tlen as int) =~= tag@);
        assert(chars@.subrange(pos as int, pos + tlen) == tag@);
    }
    true
}

fn find_tag(chars: &Vec<char>, from: usize, tag: &Vec<char>) -> (r: Option<usize>)
    requires
        from <= chars@.len(),
        tag@.len() > 0,
    ensures
        r matches Some(k) ==> from <= k && find_sub(chars@.skip(from as int), tag@) == k - from,
        r is None ==> find_sub(chars@.skip(from as int), tag@) == -1,
{
    let n = chars.len();
    let mut k: usize = from;
    while k < n
        invariant
            from <= k <= n,
            n == chars@.len(),
            forall|t: int| from <= t < k ==> !match_at(chars@, tag@, t),
        decreases n - k,
    {
        if tag_at(chars, k, tag) {
            proof {
                let rest = chars@.skip(from as int);
                assert(rest.subrange(k - from, k - from + tag@.len() as int) =~= chars@.subrange(
                    k as int,
                    k + tag@.len() as int,
                ));
                assert(match_at(rest, tag@, k - from));
                assert forall|t: int| 0 <= t < k - from implies !match_at(rest, tag@, t) by {
                    if t + tag@.len() <= rest.len() {
                        assert(rest.subrange(t, t + tag@.len() as int) =~= chars@.subrange(
                            from + t,
                            from + t + tag@.len() as int,
                        ));
                        assert(!match_at(chars@, tag@, from + t));
                    }
                }
                lemma_find_sub_at(rest, tag@, k - from);
            }
            return Some(k);
        }
        k = k + 1;
    }
    proof {
        let rest = chars@.skip(from as int);
        assert forall|t: int| !match_at(rest, tag@, t) by {
            if 0 <= t && t + tag@.len() <= rest.len() {
                assert(rest.subrange(t, t + tag@.len() as int) =~= chars@.subrange(
                    from + t,
                    from + t + tag@.len() as int,
                ));
                assert(!match_at(chars@, tag@, from + t));
            }
        }
        lemma_find_sub_none(rest, tag@);
    }
    None
}

fn append_range(out: &mut String, chars: &Vec<char>, from: usize, to: usize)
    requires
        from <= to <= old(out)@.len() + chars@.len(),
        from <= to <= chars@.len(),
    ensures
        final(out)@ == old(out)@ + chars@.subrange(from as int, to as int),
{
    let mut i: usize = from;
    while i < to
        invariant
            from <= i <= to <= chars@.len(),
            out@ == old(out)@ + chars@.subrange(from as int, i as int),
        decreases to - i,
    {
        push_char(out, chars[i]);
        proof {
            assert(old(out)@ + chars@.subrange(from as int, i as int + 1) =~= (old(out)@
                + chars@.subrange(from as int, i as int)).push(chars@[i as int]));
        }
        i = i + 1;
    }
}

fn open_tag_chars() -> (r: Vec<char>)
    ensures
        r@ == "<function>"@,
{
    chars_of("<function>")
}

fn close_tag_chars() -> (r: Vec<char>)
    ensures
        r@ == "</function>"@,
{
    chars_of("</function>")
}

/// Strips leaked `<function>...</function>` spans from streamed text; an
/// unclosed tag drops everything from the tag to the end.
pub fn sanitize_function_tags(text: &str) -> (r: String)
    ensures
        r@ == strip_tags(text@),
{
    let chars = chars_of(text);
    let open_tag = open_tag_chars();
    let close_tag = close_tag_chars();
    proof {
        reveal_strlit("<function>");
        reveal_strlit("</function>");
        assert(open_tag@.len() == 10);
        assert(close_tag@.len() == 11);
    }
    let mut out = String::new();
    let mut pos: usize = 0;
    let n = chars.len();
    proof {
        assert(chars@.skip(0) =~= text@);
        assert(out@ + strip_tags(chars@.skip(0)) =~= strip_tags(text@));
    }
    while pos < n
        invariant
            pos <= n,
            n == chars@.len(),
            chars@ == text@,
            open_tag@ == "<function>"@ && open_tag@.len() == 10,
            close_tag@ == "</function>"@ && close_tag@.len() == 11,
            strip_tags(text@) == out@ + strip_tags(chars@.skip(pos as int)),
        decreases n - pos,
    {
        let ghost rest = chars@.skip(pos as int);
        match find_tag(&chars, pos, &open_tag) {
            None => {
                proof {
                    assert(strip_tags(rest) == rest);
                }
                append_range(&mut out, &chars, pos, n);
                proof {
                    assert(chars@.subrange(pos as int, n as int) =~= rest);
                    assert(out@ =~= strip_tags(text@));
                }
                return out;
            },
            Some(i) => {
                proof {
                    assert(find_sub(rest, open_tag@) == i - pos);
                    lemma_find_sub_is_match(rest, open_tag@);
                    assert(match_at(rest, open_tag@, i - pos));
                    assert(i + 10 <= n);
                }
                let after_open = i + 10;
                match find_tag(&chars, after_open, &close_tag) {
                    None => {
                        proof {
                            assert(rest.skip(i - pos + 10) =~= chars@.skip(after_open as int));
                            assert(strip_tags(rest) == rest.take(i - pos));
                        }
                        append_range(&mut out, &chars, pos, i);
                        proof {
                            assert(chars@.subrange(pos as int, i as int) =~= rest.take(i - pos));
                            assert(out@ =~= strip_tags(text@));
                        }
                        return out;
                    },
                    Some(u) => {
                        proof {
                            lemma_find_sub_is_match(chars@.skip(after_open as int), close_tag@);
                            assert(rest.skip(i - pos + 10) =~= chars@.skip(after_open as int));
                            assert(u + 11 <= n);
                            assert(rest.skip((i - pos) + 10 + (u - after_open) + 11) =~= chars@.skip(
                                u + 11,
                            ));
                            assert(strip_tags(rest) == rest.take(i - pos) + strip_tags(
                                chars@.skip(u + 11),
                            ));
                        }
                        append_range(&mut out, &chars, pos, i);
                        proof {
                            assert(chars@.subrange(pos as int, i as int) =~= rest.take(i - pos));
                            assert(out@ + strip_tags(chars@.skip(u + 11)) =~= strip_tags(text@));
                        }
                        pos = u + 11;
                    },
                }
            },
        }
    }
    proof {
        assert(chars@.skip(n as int) =~= Seq::<char>::empty());
        assert(strip_tags(Seq::<char>::empty()) == Seq::<char>::empty());
        assert(out@ =~= strip_tags(text@));
    }
    out
}

proof fn lemma_find_sub_is_match(s: Seq<char>, pat: Seq<char>)
    ensures
        find_sub(s, pat) >= 0 ==> match_at(s, pat, find_sub(s, pat)),
    decreases s.len(),
{
    if pat.len() == 0 {
        assert(s.subrange(0, 0) =~= pat);
    } else if s.len() >= pat.len() {
        if s.take(pat.len() as int) == pat {
            assert(s.subrange(0, pat.len() as int) =~= s.take(pat.len() as int));
        } else {
            lemma_find_sub_is_match(s.drop_first(), pat);
            let r = find_sub(s.drop_first(), pat);
            if r >= 0 {
                assert(s.subrange(r + 1, r + 1 + pat.len() as int) =~= s.drop_first().subrange(
                    r,
                    r + pat.len() as int,
                ));
            }
        }
    }
}

/// A white-space character: the Unicode White_Space set.
pub open spec fn is_wspace(c: char) -> bool {
    let u = c as u32;
    ||| u == 0x09
    ||| u == 0x0a
    ||| u == 0x0b
    ||| u == 0x0c
    ||| u == 0x0d
    ||| u == 0x20
    ||| u == 0x85
    ||| u == 0xa0
    ||| u == 0x1680
    ||| (0x2000 <= u <= 0x200a)
    ||| u == 0x2028
    ||| u == 0x2029
    ||| u == 0x202f
    ||| u == 0x205f
    ||| u == 0x3000
}

fn is_wspace_exec(c: char) -> (r: bool)
    ensures
        r == is_wspace(c),
{
    let u = c as u32;
    u == 0x09 || u == 0x0a || u == 0x0b || u == 0x0c || u == 0x0d || u == 0x20 || u == 0x85
        || u == 0xa0 || u == 0x1680 || (0x2000 <= u && u <= 0x200a) || u == 0x2028 || u == 0x2029
        || u == 0x202f || u == 0x205f || u == 0x3000
}

/// The UTF-8 byte width of one character.
pub open spec fn cwidth(c: char) -> int {
    let u = c as u32;
    if u < 0x80 {
        1
    } else if u < 0x800 {
        2
    } else if u < 0x10000 {
        3
    } else {
        4
    }
}

/// The UTF-8 byte width of a character sequence.
pub open spec fn swidth(s: Seq<char>) -> int
    decreases s.len(),
{
    if s.len() == 0 {
        0
    } else {
        swidth(s.drop_last()) + cwidth(s.last())
    }
}

proof fn lemma_swidth_bounds(s: Seq<char>)
    ensures
        s.len() <= swidth(s) <= 4 * s.len(),
    decreases s.len(),
{
    if s.len() > 0 {
        lemma_swidth_bounds(s.drop_last());
    }
}

/// The index of the first newline in `s`, or `s.len()` when it holds none.
pub open spec fn find_nl(s: Seq<char>) -> int
    decreases s.len(),
{
    if s.len() == 0 {
        0
    } else if s[0] == '\n' {
        0
    } else {
        1 + find_nl(s.drop_first())
    }
}

proof fn lemma_find_nl_at(s: Seq<char>, i: int)
    requires
        0 <= i <= s.len(),
        forall|j: int| 0 <= j < i ==> s[j] != '\n',
        i == s.len() || s[i] == '\n',
    ensures
        find_nl(s) == i,
    decreases i,
{
    if i > 0 {
        assert forall|j: int| 0 <= j < i - 1 implies s.drop_first()[j] != '\n' by {
            assert(s.drop_first()[j] == s[j + 1]);
        }
        assert(i - 1 == s.drop_first().len() || s.drop_first()[i - 1] == '\n');
        lemma_find_nl_at(s.drop_first(), i - 1);
    }
}

/// The index of the first white-space character in `s`, or `s.len()`.
pub open spec fn find_ws(s: Seq<char>) -> int
    decreases s.len(),
{
    if s.len() == 0 {
        0
    } else if is_wspace(s[0]) {
        0
    } else {
        1 + find_ws(s.drop_first())
    }
}

proof fn lemma_find_ws_at(s: Seq<char>, i: int)
    requires
        0 <= i <= s.len(),
        forall|j: int| 0 <= j < i ==> !is_wspace(s[j]),
        i == s.len() || is_wspace(s[i]),
    ensures
        find_ws(s) == i,
    decreases i,
{
    if i > 0 {
        assert forall|j: int| 0 <= j < i - 1 implies !is_wspace(s.drop_first()[j]) by {
            assert(s.drop_first()[j] == s[j + 1]);
        }
        assert(i - 1 == s.drop_first().len() || is_wspace(s.drop_first()[i - 1]));
        lemma_find_ws_at(s.drop_first(), i - 1);
    }
}

/// A line with one carriage return stripped from its end, as a
/// `\r\n`-terminated line reads without its terminator.
pub open spec fn strip_cr(l: Seq<char>) -> Seq<char> {
    if l.len() > 0 && l.last() == '\r' {
        l.drop_last()
    } else {
        l
    }
}

/// The lines of a text, split at `\n` with a preceding `\r` stripped; a
/// final line ending is optional and leaves no empty last line.
pub open spec fn lines_of(s: Seq<char>) -> Seq<Seq<char>>
    decreases s.len(),
{
    if s.len() == 0 {
        Seq::empty()
    } else {
        let i = find_nl(s);
        if i == s.len() {
            seq![s]
        } else if 0 <= i < s.len() {
            seq![strip_cr(s.take(i))] + lines_of(s.skip(i + 1))
        } else {
            seq![s]
        }
    }
}

/// The maximal white-space-free runs of a line, in order.
pub open spec fn words_of(l: Seq<char>) -> Seq<Seq<char>>
    decreases l.len(),
{
    if l.len() == 0 {
        Seq::empty()
    } else if is_wspace(l[0]) {
        words_of(l.drop_first())
    } else {
        let j = find_ws(l);
        if 1 <= j <= l.len() {
            seq![l.take(j)] + words_of(l.skip(j))
        } else {
            Seq::empty()
        }
    }
}

/// Greedy packing of words into lines of at most `max` bytes: a word joins
/// the open line when it fits after a space, and otherwise starts a new
/// line; a word wider than `max` stands on a line of its own.
pub open spec fn wrap_words(ws: Seq<Seq<char>>, cur: Seq<char>, max: int) -> Seq<Seq<char>>
    decreases ws.len(),
{
    if ws.len() == 0 {
        if cur.len() == 0 {
            Seq::empty()
        } else {
            seq![cur]
        }
    } else if cur.len() == 0 {
        wrap_words(ws.drop_first(), ws[0], max)
    } else if swidth(cur) + 1 + swidth(ws[0]) <= max {
        wrap_words(ws.drop_first(), cur.push(' ') + ws[0], max)
    } else {
        seq![cur] + wrap_words(ws.drop_first(), ws[0], max)
    }
}

/// One source line wrapped: an empty line stays one empty line; a line of
/// nothing but white space vanishes.
pub open spec fn wrap_line(l: Seq<char>, max: int) -> Seq<Seq<char>> {
    if l.len() == 0 {
        seq![Seq::empty()]
    } else {
        wrap_words(words_of(l), Seq::empty(), max)
    }
}

/// Every source line wrapped, in order.
pub open spec fn wrap_lines(ls: Seq<Seq<char>>, max: int) -> Seq<Seq<char>>
    decreases ls.len(),
{
    if ls.len() == 0 {
        Seq::empty()
    } else {
        wrap_line(ls[0], max) + wrap_lines(ls.drop_first(), max)
    }
}

/// The whole wrap: a zero width returns the text whole, and a text that
/// wraps to nothing yields one empty line.
pub open spec fn wrap_spec(s: Seq<char>, max: int) -> Seq<Seq<char>> {
    if max == 0 {
        seq![s]
    } else {
        let r = wrap_lines(lines_of(s), max);
        if r.len() == 0 {
            seq![Seq::empty()]
        } else {
            r
        }
    }
}

/// The character sequences of a list of strings.
pub open spec fn str_views(v: Seq<String>) -> Seq<Seq<char>> {
    Seq::new(v.len(), |i: int| v[i]@)
}

fn width_of(w: &Vec<char>) -> (r: usize)
    requires
        4 * w@.len() <= usize::MAX,
    ensures
        r == swidth(w@),
{
    let mut r: usize = 0;
    let mut i: usize = 0;
    let n = w.len();
    while i < n
        invariant
            i <= n,
            n == w@.len(),
            4 * n <= usize::MAX,
            r == swidth(w@.take(i as int)),
            r <= 4 * i,
        decreases n - i,
    {
        proof {
            assert(w@.take(i as int + 1).drop_last() =~= w@.take(i as int));
            assert(w@.take(i as int + 1).last() == w@[i as int]);
        }
        let u = w[i] as u32;
        let cw: usize = if u < 0x80 {
            1
        } else if u < 0x800 {
            2
        } else if u < 0x10000 {
            3
        } else {
            4
        };
        r = r + cw;
        i = i + 1;
    }
    proof {
        assert(w@.take(n as int) =~= w@);
    }
    r
}

fn string_of_chars(w: &Vec<char>) -> (r: String)
    ensures
        r@ == w@,
{
    let mut r = String::new();
    let mut i: usize = 0;
    let n = w.len();
    while i < n
        invariant
            i <= n,
            n == w@.len(),
            r@ == w@.take(i as int),
        decreases n - i,
    {
        push_char(&mut r, w[i]);
        proof {
            assert(r@ =~= w@.take(i as int + 1));
        }
        i = i + 1;
    }
    proof {
        assert(w@.take(n as int) =~= w@);
    }
    r
}

fn words_of_line(line: &Vec<char>) -> (r: Vec<Vec<char>>)
    ensures
        Seq::new(r@.len(), |i: int| r@[i]@) == words_of(line@),
        forall|i: int| 0 <= i < r@.len() ==> (#[trigger] r@[i]@).len() >= 1,
{
    let ghost views = |v: Seq<Vec<char>>| Seq::new(v.len(), |i: int| v[i]@);
    let mut r: Vec<Vec<char>> = Vec::new();
    let mut pos: usize = 0;
    let n = line.len();
    proof {
        assert(line@.skip(0) =~= line@);
        assert(Seq::new(r@.len(), |i: int| r@[i]@) + words_of(line@.skip(0)) =~= words_of(line@));
    }
    while pos < n
        invariant
            pos <= n,
            n == line@.len(),
            words_of(line@) == Seq::new(r@.len(), |i: int| r@[i]@) + words_of(
                line@.skip(pos as int),
            ),
            forall|i: int| 0 <= i < r@.len() ==> (#[trigger] r@[i]@).len() >= 1,
        decreases n - pos,
    {
        let ghost rest = line@.skip(pos as int);
        if is_wspace_exec(line[pos]) {
            proof {
                assert(rest.drop_first() =~= line@.skip(pos as int + 1));
            }
            pos = pos + 1;
        } else {
            let mut e: usize = pos;
            while e < n && !is_wspace_exec(line[e])
                invariant
                    pos <= e <= n,
                    n == line@.len(),
                    forall|j: int| pos <= j < e ==> !is_wspace(line@[j]),
                decreases n - e,
            {
                e = e + 1;
            }
            proof {
                assert forall|j: int| 0 <= j < e - pos implies !is_wspace(rest[j]) by {
                    assert(rest[j] == line@[pos + j]);
                }
                if e < n {
                    assert(is_wspace(rest[e - pos]));
                }
                lemma_find_ws_at(rest, e - pos);
            }
            let mut word: Vec<char> = Vec::new();
            let mut k: usize = pos;
            while k < e
                invariant
                    pos <= k <= e <= n,
                    n == line@.len(),
                    word@ == line@.subrange(pos as int, k as int),
                decreases e - k,
            {
                word.push(line[k]);
                proof {
                    assert(word@ =~= line@.subrange(pos as int, k as int + 1));
                }
                k = k + 1;
            }
            proof {
                assert(word@ =~= rest.take(e - pos));
                assert(rest.skip(e - pos) =~= line@.skip(e as int));
                assert(words_of(rest) == seq![word@] + words_of(line@.skip(e as int)));
                let f = |i: int| r@.push(word)[i]@;
                assert(Seq::new(r@.push(word).len(), |i: int| r@.push(word)[i]@) =~= Seq::new(
                    r@.len(),
                    |i: int| r@[i]@,
                ).push(word@));
            }
            r.push(word);
            pos = e;
        }
    }
    proof {
        assert(line@.skip(n as int) =~= Seq::<char>::empty());
        assert(Seq::new(r@.len(), |i: int| r@[i]@) =~= words_of(line@));
    }
    r
}

/// Wraps a text to lines of at most `max_width` bytes: words are packed
/// greedily with single spaces, source line breaks are kept, an
/// over-wide word stands alone, and a zero width returns the text whole.
#[verifier::rlimit(60)]
pub fn wrap_text(text: &str, max_width: usize) -> (r: Vec<String>)
    requires
        4 * text@.len() <= usize::MAX,
    ensures
        str_views(r@) == wrap_spec(text@, max_width as int),
{
    if max_width == 0 {
        let mut one: Vec<String> = Vec::new();
        one.push(text.to_owned());
        proof {
            assert(str_views(one@) =~= wrap_spec(text@, 0));
        }
        return one;
    }
    let chars = chars_of(text);
    let mut out: Vec<String> = Vec::new();
    let mut pos: usize = 0;
    let n = chars.len();
    let ghost max = max_width as int;
    proof {
        assert(chars@.skip(0) =~= text@);
        assert(str_views(out@) + wrap_lines(lines_of(chars@.skip(0)), max) =~= wrap_lines(
            lines_of(text@),
            max,
        ));
    }
    while pos < n
        invariant
            pos <= n,
            n == chars@.len(),
            chars@ == text@,
            max == max_width as int,
            max_width >= 1,
            4 * n <= usize::MAX,
            wrap_lines(lines_of(text@), max) == str_views(out@) + wrap_lines(
                lines_of(chars@.skip(pos as int)),
                max,
            ),
        decreases n - pos,
    {
        let ghost rest = chars@.skip(pos as int);
        let mut e: usize = pos;
        while e < n && chars[e] != '\n'
            invariant
                pos <= e <= n,
                n == chars@.len(),
                forall|j: int| pos <= j < e ==> chars@[j] != '\n',
            decreases n - e,
        {
            e = e + 1;
        }
        proof {
            assert forall|j: int| 0 <= j < e - pos implies rest[j] != '\n' by {
                assert(rest[j] == chars@[pos + j]);
            }
            if e < n {
                assert(rest[e - pos] == '\n');
            }
            lemma_find_nl_at(rest, e - pos);
        }
        let ghost line_for_spec = if e < n {
            strip_cr(rest.take(e - pos))
        } else {
            rest
        };
        let ghost next_pos: int = if e < n {
            e + 1
        } else {
            n as int
        };
        proof {
            if e < n {
                assert(rest.skip(e - pos + 1) =~= chars@.skip(e as int + 1));
                assert(lines_of(rest) == seq![line_for_spec] + lines_of(chars@.skip(next_pos)));
            } else {
                assert(rest.take(e - pos) =~= rest);
                assert(chars@.skip(next_pos) =~= Seq::<char>::empty());
                assert(lines_of(rest) =~= seq![line_for_spec] + lines_of(chars@.skip(next_pos)));
            }
        }
        let mut line: Vec<char> = Vec::new();
        let mut k: usize = pos;
        while k < e
            invariant
                pos <= k <= e <= n,
                n == chars@.len(),
                line@ == chars@.subrange(pos as int, k as int),
            decreases e - k,
        {
            line.push(chars[k]);
            proof {
                assert(line@ =~= chars@.subrange(pos as int, k as int + 1));
            }
            k = k + 1;
        }
        proof {
            assert(line@ =~= rest.take(e - pos));
        }
        if e < n {
            if line.len() > 0 && line[line.len() - 1] == '\r' {
                line.pop();
            }
        }
        proof {
            assert(line@ =~= line_for_spec);
        }
        let ghost tail_part = wrap_lines(lines_of(chars@.skip(next_pos)), max);
        proof {
            let ls = lines_of(rest);
            assert(ls.len() >= 1 && ls[0] == line_for_spec);
            assert(ls.drop_first() =~= lines_of(chars@.skip(next_pos)));
            assert(wrap_lines(ls, max) == wrap_line(ls[0], max) + wrap_lines(ls.drop_first(), max));
            assert(wrap_lines(lines_of(rest), max) =~= wrap_line(line_for_spec, max) + tail_part);
        }
        if line.len() == 0 {
            out.push(String::new());
            proof {
                assert(wrap_line(line_for_spec, max) =~= seq![Seq::<char>::empty()]);
                assert(str_views(out@) =~= str_views(out@.drop_last()) + seq![Seq::<char>::empty()]);
                assert(str_views(out@) + tail_part =~= wrap_lines(lines_of(text@), max));
            }
        } else {
            let words = words_of_line(&line);
            let ghost word_views = Seq::new(words@.len(), |t: int| words@[t]@);
            proof {
                assert(word_views == words_of(line@));
                assert(wrap_line(line_for_spec, max) == wrap_words(word_views, Seq::empty(), max));
                lemma_words_are_short(line@, word_views);
            }
            let mut cur: Vec<char> = Vec::new();
            let mut cur_w: usize = 0;
            let mut i: usize = 0;
            let m = words.len();
            proof {
                assert(word_views.skip(0) =~= word_views);
                assert(cur@ =~= Seq::<char>::empty());
                assert(str_views(out@) + wrap_words(word_views.skip(0), cur@, max) + tail_part
                    =~= wrap_lines(lines_of(text@), max));
            }
            while i < m
                invariant
                    i <= m,
                    m == words@.len(),
                    max == max_width as int,
                    max_width >= 1,
                    4 * n <= usize::MAX,
                    word_views == Seq::new(words@.len(), |t: int| words@[t]@),
                    forall|t: int| 0 <= t < words@.len() ==> (#[trigger] words@[t]@).len() >= 1,
                    forall|t: int|
                        0 <= t < word_views.len() ==> (#[trigger] word_views[t]).len() <= n,
                    cur_w == swidth(cur@),
                    (cur@.len() == 0) <==> (cur_w == 0),
                    wrap_lines(lines_of(text@), max) == str_views(out@) + wrap_words(
                        word_views.skip(i as int),
                        cur@,
                        max,
                    ) + tail_part,
                decreases m - i,
            {
                let ghost wseq = word_views.skip(i as int);
                let word = &words[i];
                proof {
                    assert(wseq[0] == word@);
                    assert(wseq.drop_first() =~= word_views.skip(i as int + 1));
                    assert(word@.len() <= n) by {
                        assert(word_views[i as int].len() <= n);
                    }
                    lemma_swidth_bounds(word@);
                    lemma_swidth_bounds(cur@);
                }
                let word_w = width_of(word);
                if cur_w == 0 {
                    proof {
                        assert(wrap_words(wseq, cur@, max) == wrap_words(wseq.drop_first(), word@, max));
                    }
                    cur = copy_chars(word);
                    cur_w = word_w;
                } else {
                    let fits = word_w <= max_width && 1 <= max_width - word_w && cur_w <= max_width
                        - word_w - 1;
                    proof {
                        assert(fits == (swidth(cur@) + 1 + swidth(wseq[0]) <= max));
                    }
                    if fits {
                        proof {
                            assert(wrap_words(wseq, cur@, max) == wrap_words(
                                wseq.drop_first(),
                                cur@.push(' ') + word@,
                                max,
                            ));
                        }
                        let ghost prev_cur = cur@;
                        cur.push(' ');
                        let ghost mid = cur@;
                        append_chars(&mut cur, word);
                        proof {
                            assert(mid == prev_cur.push(' '));
                            assert(cur@ == mid + word@);
                            lemma_swidth_concat(mid, word@);
                            assert(mid.drop_last() =~= prev_cur);
                            assert(mid.last() == ' ');
                            assert(swidth(mid) == swidth(prev_cur) + 1);
                        }
                        cur_w = cur_w + 1 + word_w;
                    } else {
                        proof {
                            assert(wrap_words(wseq, cur@, max) == seq![cur@] + wrap_words(
                                wseq.drop_first(),
                                word@,
                                max,
                            ));
                        }
                        out.push(string_of_chars(&cur));
                        proof {
                            assert(str_views(out@) =~= str_views(out@.drop_last()) + seq![
                                out@.last()@,
                            ]);
                        }
                        cur = copy_chars(word);
                        cur_w = word_w;
                    }
                }
                i = i + 1;
            }
            proof {
                assert(word_views.skip(m as int) =~= Seq::<Seq<char>>::empty());
            }
            if cur.len() > 0 {
                proof {
                    assert(wrap_words(word_views.skip(m as int), cur@, max) =~= seq![cur@]);
                }
                out.push(string_of_chars(&cur));
                proof {
                    assert(str_views(out@) =~= str_views(out@.drop_last()) + seq![out@.last()@]);
                    assert(str_views(out@) + tail_part =~= wrap_lines(lines_of(text@), max));
                }
            } else {
                proof {
                    assert(wrap_words(word_views.skip(m as int), cur@, max)
                        =~= Seq::<Seq<char>>::empty());
                    assert(str_views(out@) + tail_part =~= wrap_lines(lines_of(text@), max));
                }
            }
        }
        pos = if e < n {
            e + 1
        } else {
            n
        };
    }
    proof {
        assert(chars@.skip(n as int) =~= Seq::<char>::empty());
        assert(lines_of(Seq::<char>::empty()) == Seq::<Seq<char>>::empty());
        assert(str_views(out@) =~= wrap_lines(lines_of(text@), max));
    }
    if out.len() == 0 {
        out.push(String::new());
        proof {
            assert(str_views(out@) =~= wrap_spec(text@, max_width as int));
        }
    } else {
        proof {
            assert(str_views(out@) =~= wrap_spec(text@, max_width as int));
        }
    }
    out
}

fn copy_chars(w: &Vec<char>) -> (r: Vec<char>)
    ensures
        r@ == w@,
{
    let mut r: Vec<char> = Vec::new();
    let mut t: usize = 0;
    let n = w.len();
    while t < n
        invariant
            t <= n,
            n == w@.len(),
            r@ == w@.take(t as int),
        decreases n - t,
    {
        r.push(w[t]);
        proof {
            assert(r@ =~= w@.take(t as int + 1));
        }
        t = t + 1;
    }
    proof {
        assert(w@.take(n as int) =~= w@);
    }
    r
}

fn append_chars(out: &mut Vec<char>, w: &Vec<char>)
    ensures
        final(out)@ == old(out)@ + w@,
{
    let mut t: usize = 0;
    let n = w.len();
    while t < n
        invariant
            t <= n,
            n == w@.len(),
            out@ == old(out)@ + w@.take(t as int),
        decreases n - t,
    {
        out.push(w[t]);
        proof {
            assert(old(out)@ + w@.take(t as int + 1) =~= (old(out)@ + w@.take(t as int)).push(
                w@[t as int],
            ));
        }
        t = t + 1;
    }
    proof {
        assert(w@.take(n as int) =~= w@);
    }
}

proof fn lemma_swidth_concat(a: Seq<char>, b: Seq<char>)
    ensures
        swidth(a + b) == swidth(a) + swidth(b),
    decreases b.len(),
{
    if b.len() == 0 {
        assert(a + b =~= a);
    } else {
        assert((a + b).drop_last() =~= a + b.drop_last());
        assert((a + b).last() == b.last());
        lemma_swidth_concat(a, b.drop_last());
    }
}

proof fn lemma_words_are_short(l: Seq<char>, ws: Seq<Seq<char>>)
    requires
        ws == words_of(l),
    ensures
        forall|i: int| 0 <= i < ws.len() ==> (#[trigger] ws[i]).len() <= l.len(),
    decreases l.len(),
{
    if l.len() == 0 {
    } else if is_wspace(l[0]) {
        lemma_words_are_short(l.drop_first(), words_of(l.drop_first()));
    } else {
        let j = find_ws(l);
        lemma_find_ws_bounds(l);
        lemma_find_ws_bounds(l.drop_first());
        assert(find_ws(l) == 1 + find_ws(l.drop_first()));
        assert(1 <= j <= l.len());
        lemma_words_are_short(l.skip(j), words_of(l.skip(j)));
        assert forall|i: int| 0 <= i < ws.len() implies (#[trigger] ws[i]).len() <= l.len() by {
            if i == 0 {
            } else {
                assert(ws[i] == words_of(l.skip(j))[i - 1]);
            }
        }
    }
}

proof fn lemma_find_ws_bounds(s: Seq<char>)
    ensures
        0 <= find_ws(s) <= s.len(),
    decreases s.len(),
{
    if s.len() > 0 && !is_wspace(s[0]) {
        lemma_find_ws_bounds(s.drop_first());
    }
}

} // verus!
