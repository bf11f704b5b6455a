//! The incremental page-title scanner.
//!
//! The scanner looks for the first `<title>` tag of an HTML body and returns
//! the text up to the next `<`. It is fed the body piece by piece and keeps
//! only the bytes that it has not yet decided on; what it returns depends on
//! all the bytes it was given, in order, and on nothing else.
use vstd::prelude::*;
use vstd::utf8::*;
use crate::bytes::{
    absent, append_range, drop_front, find_byte_from, first_from, lemma_first_from,
    lemma_first_from_is, lower, lower_byte, eq_ignore_case,
};
use crate::error::FetchError;
use crate::text::{lossy_text, utf8_lossy, utf8_text};

verus! {

/// `<`
pub const LT: u8 = 60;

/// `>`
pub const GT: u8 = 62;

/// The length of the tag name `title`.
pub const TAG_LEN: usize = 5;

/// The tag name `title`, in ASCII.
pub open spec fn title_tag() -> Seq<u8> {
    seq![116u8, 105u8, 116u8, 108u8, 101u8]
}

/// The bytes that follow a `<` at `i` and are compared with the tag name.
pub open spec fn tag_window(s: Seq<u8>, i: int) -> Seq<u8> {
    s.subrange(i + 1, i + 1 + TAG_LEN)
}

/// A `<` at `i` opens a title tag, in any letter case.
pub open spec fn opens_title(s: Seq<u8>, i: int) -> bool {
    &&& 0 <= i
    &&& i + 1 + TAG_LEN <= s.len()
    &&& s[i] == LT
    &&& eq_ignore_case(tag_window(s, i), title_tag())
}

/// A `<` at `i` that the scan reads past: its tag name is complete, is not
/// `title`, and is well-formed text.
pub open spec fn passable(s: Seq<u8>, i: int) -> bool {
    &&& i + 1 + TAG_LEN <= s.len()
    &&& !eq_ignore_case(tag_window(s, i), title_tag())
    &&& valid_utf8(tag_window(s, i))
}

/// Every `<` from `from` up to `to` is one that the scan reads past.
pub open spec fn passes(s: Seq<u8>, from: int, to: int) -> bool {
    forall|i: int| from <= i < to && #[trigger] s[i] == LT ==> passable(s, i)
}

/// Where a scan of a byte sequence stands.
pub enum TitleScan {
    /// No title yet: the bytes so far hold none, or it is not complete.
    Pending,
    /// The name of a tag before the title is not well-formed UTF-8.
    BadTagName,
    /// The bytes of the title.
    Found(Seq<u8>),
}

/// The scan of `s` from index `i` on.
pub open spec fn scan_from(s: Seq<u8>, i: int) -> TitleScan
    decreases s.len() - i,
{
    if i < 0 || i >= s.len() {
        TitleScan::Pending
    } else if s[i] != LT {
        scan_from(s, i + 1)
    } else if i + 1 + TAG_LEN > s.len() {
        TitleScan::Pending
    } else if eq_ignore_case(tag_window(s, i), title_tag()) {
        title_after(s, i)
    } else if !valid_utf8(tag_window(s, i)) {
        TitleScan::BadTagName
    } else {
        scan_from(s, i + 1)
    }
}

/// The title that follows a title tag opened at `i`: the bytes between the
/// first `>` after it and the next `<`.
pub open spec fn title_after(s: Seq<u8>, i: int) -> TitleScan {
    match first_from(s, GT, i + 1) {
        None => TitleScan::Pending,
        Some(j) => match first_from(s, LT, j + 1) {
            None => TitleScan::Pending,
            Some(k) => TitleScan::Found(s.subrange(j + 1, k)),
        },
    }
}

/// The outcome of scanning the whole of `s` for its title.
pub open spec fn title_scan(s: Seq<u8>) -> TitleScan {
    scan_from(s, 0)
}

/// A stretch whose every `<` is passed over does not change the scan.
pub proof fn lemma_passes_scan(s: Seq<u8>, a: int, b: int)
    requires
        0 <= a <= b <= s.len(),
        passes(s, a, b),
    ensures
        scan_from(s, a) == scan_from(s, b),
    decreases b - a,
{
    if a < b {
        if s[a] == LT {
            assert(passable(s, a));
        }
        lemma_passes_scan(s, a + 1, b);
    }
}

proof fn lemma_scan_extends(s: Seq<u8>, u: Seq<u8>, i: int)
    requires
        0 <= i,
        !(scan_from(s, i) is Pending),
    ensures
        scan_from(s + u, i) == scan_from(s, i),
    decreases s.len() - i,
{
    let t = s + u;
    if i < s.len() {
        assert(t[i] == s[i]);
        if s[i] != LT {
            lemma_scan_extends(s, u, i + 1);
        } else if i + 1 + TAG_LEN <= s.len() {
            assert(tag_window(t, i) =~= tag_window(s, i));
            if eq_ignore_case(tag_window(s, i), title_tag()) {
                lemma_first_from(s, GT, i + 1);
                let j = first_from(s, GT, i + 1)->0;
                assert(absent(t, GT, i + 1, j)) by {
                    assert forall|x: int| i + 1 <= x < j implies #[trigger] t[x] != GT by {
                        assert(t[x] == s[x]);
                    }
                }
                assert(t[j] == s[j]);
                lemma_first_from_is(t, GT, i + 1, Some(j));
                lemma_first_from(s, LT, j + 1);
                let k = first_from(s, LT, j + 1)->0;
                assert(absent(t, LT, j + 1, k)) by {
                    assert forall|x: int| j + 1 <= x < k implies #[trigger] t[x] != LT by {
                        assert(t[x] == s[x]);
                    }
                }
                assert(t[k] == s[k]);
                lemma_first_from_is(t, LT, j + 1, Some(k));
                assert(t.subrange(j + 1, k) =~= s.subrange(j + 1, k));
            } else if valid_utf8(tag_window(s, i)) {
                lemma_scan_extends(s, u, i + 1);
            }
        }
    }
}

/// Once the bytes seen hold a title, or a tag name that is not text, more
/// bytes do not change the outcome: the first title is the one returned.
pub proof fn lemma_title_stable(s: Seq<u8>, u: Seq<u8>)
    requires
        !(title_scan(s) is Pending),
    ensures
        title_scan(s + u) == title_scan(s),
{
    lemma_scan_extends(s, u, 0);
}

/// Input in which no `<` opens a title tag, and every tag name is text,
/// yields no title, and no error.
pub proof fn lemma_no_title_tag(s: Seq<u8>)
    requires
        forall|i: int|
            0 <= i < s.len() && #[trigger] s[i] == LT && i + 1 + TAG_LEN <= s.len() ==> {
                &&& !eq_ignore_case(tag_window(s, i), title_tag())
                &&& valid_utf8(tag_window(s, i))
            },
    ensures
        title_scan(s) is Pending,
{
    lemma_no_title_from(s, 0);
}

proof fn lemma_no_title_from(s: Seq<u8>, i: int)
    requires
        0 <= i,
        forall|k: int|
            0 <= k < s.len() && #[trigger] s[k] == LT && k + 1 + TAG_LEN <= s.len() ==> {
                &&& !eq_ignore_case(tag_window(s, k), title_tag())
                &&& valid_utf8(tag_window(s, k))
            },
    ensures
        scan_from(s, i) is Pending,
    decreases s.len() - i,
{
    if i < s.len() {
        lemma_no_title_from(s, i + 1);
    }
}

/// The letter case of a tag name does not decide whether it opens the
/// title: two inputs whose tag names after a `<` differ only in case agree.
pub proof fn lemma_tag_case_blind(s: Seq<u8>, t: Seq<u8>, i: int)
    requires
        0 <= i,
        i + 1 + TAG_LEN <= s.len(),
        i + 1 + TAG_LEN <= t.len(),
        s[i] == LT,
        t[i] == LT,
        eq_ignore_case(tag_window(s, i), tag_window(t, i)),
    ensures
        opens_title(s, i) == opens_title(t, i),
{
    let a = tag_window(s, i);
    let b = tag_window(t, i);
    let c = title_tag();
    if opens_title(s, i) {
        assert forall|k: int| 0 <= k < b.len() implies #[trigger] lower(b[k]) == lower(c[k]) by {
            assert(lower(a[k]) == lower(b[k]));
            assert(lower(a[k]) == lower(c[k]));
        }
    }
    if opens_title(t, i) {
        assert forall|k: int| 0 <= k < a.len() implies #[trigger] lower(a[k]) == lower(c[k]) by {
            assert(lower(a[k]) == lower(b[k]));
            assert(lower(b[k]) == lower(c[k]));
        }
    }
}

/// Which part of a tag the scanner is in.
#[derive(Clone, Copy, PartialEq, Eq, Structural)]
pub enum TitleState {
    /// Looking for the next `<`.
    Start,
    /// After a `<`, waiting for the tag name.
    Name,
    /// Inside a title tag, looking for its closing `>`.
    Attributes,
    /// Gathering the title up to the next `<`.
    Value,
}

pub open spec fn rank(s: TitleState) -> nat {
    match s {
        TitleState::Name => 2,
        TitleState::Start => 1,
        TitleState::Attributes => 1,
        TitleState::Value => 0,
    }
}

/// Reads the title of an HTML body that arrives piece by piece.
///
/// It owns the bytes that were already read when the body began (left over
/// from the response head) and is handed each further read.
pub struct HtmlBodyReader {
    /// The bytes received and not yet decided on.
    buffer: Vec<u8>,
    state: TitleState,
    /// In `Value`, the title gathered so far.
    title: Vec<u8>,
    /// Every byte received; `buffer` is what follows index `pos` of it.
    seen: Ghost<Seq<u8>>,
    pos: Ghost<int>,
    /// In `Attributes` and `Value`, where the title tag's `<` stands.
    tag: Ghost<int>,
    /// In `Value`, where the `>` closing the title tag stands.
    close: Ghost<int>,
}

impl HtmlBodyReader {
    /// Every byte the reader was given, in order.
    pub closed spec fn seen(&self) -> Seq<u8> {
        self.seen@
    }

    /// The bytes that the reader holds and has not decided on yet.
    pub closed spec fn buffered(&self) -> Seq<u8> {
        self.buffer@
    }

    pub closed spec fn state(&self) -> TitleState {
        self.state
    }

    pub closed spec fn inv(&self) -> bool {
        let s = self.seen@;
        let p = self.pos@;
        let tag = self.tag@;
        let close = self.close@;
        &&& 0 <= p <= s.len()
        &&& self.buffer@ == s.subrange(p, s.len() as int)
        &&& match self.state {
            TitleState::Start => passes(s, 0, p),
            TitleState::Name => 1 <= p && s[p - 1] == LT && passes(s, 0, p - 1),
            TitleState::Attributes => {
                &&& opens_title(s, tag)
                &&& passes(s, 0, tag)
                &&& tag < p
                &&& absent(s, GT, tag + 1, p)
            },
            TitleState::Value => {
                &&& opens_title(s, tag)
                &&& passes(s, 0, tag)
                &&& tag < close < p
                &&& s[close] == GT
                &&& absent(s, GT, tag + 1, close)
                &&& absent(s, LT, close + 1, p)
                &&& self.title@ == s.subrange(close + 1, p)
            },
        }
    }

    /// How many bytes the reader holds undecided.
    pub fn buffered_len(&self) -> (r: usize)
        ensures
            r == self.buffered().len(),
    {
        self.buffer.len()
    }

    /// A reader whose input begins with `buffer`. The buffer is given room
    /// for at least a tag name.
    pub fn new(buffer: Vec<u8>) -> (r: Self)
        ensures
            r.inv(),
            r.seen() == buffer@,
            r.buffered() == buffer@,
            r.state() == TitleState::Start,
    {
        let mut buffer = buffer;
        buffer.reserve(TAG_LEN);
        let ghost s = buffer@;
        let r = HtmlBodyReader {
            buffer,
            state: TitleState::Start,
            title: Vec::new(),
            seen: Ghost(s),
            pos: Ghost(0),
            tag: Ghost(0),
            close: Ghost(0),
        };
        assert(r.buffer@ =~= s.subrange(0, s.len() as int));
        r
    }

    /// Hands the reader the bytes of a further read.
    pub fn push_bytes(&mut self, bytes: &[u8])
        requires
            old(self).inv(),
        ensures
            final(self).inv(),
            final(self).seen() == old(self).seen() + bytes@,
            final(self).state() == old(self).state(),
    {
        let ghost s = self.seen@;
        let ghost t = s + bytes@;
        append_range(&mut self.buffer, bytes, 0, bytes.len());
        self.seen = Ghost(t);
        proof {
            lemma_extend(s, bytes@);
            let p = self.pos@;
            assert(bytes@.subrange(0, bytes@.len() as int) =~= bytes@);
            assert(self.buffer@ =~= t.subrange(p, t.len() as int));
            if self.state == TitleState::Value {
                assert(self.title@ =~= t.subrange(self.close@ + 1, p));
            }
        }
    }

    /// How far the scanner is from having to wait for more input.
    pub closed spec fn progress(&self) -> nat {
        3 * self.buffer@.len() + rank(self.state)
    }

    /// `r` is what `extract_title` owes for the input `s`, with `self` the
    /// reader after the call.
    pub open spec fn reports(&self, s: Seq<u8>, r: Result<Option<String>, FetchError>) -> bool {
        match title_scan(s) {
            TitleScan::Found(t) => r matches Ok(Some(x)) && x@ == lossy_text(t),
            TitleScan::BadTagName => r matches Err(FetchError::NonUtf8Content),
            TitleScan::Pending => r matches Ok(None) && self.buffered().len() < TAG_LEN,
        }
    }

    /// Runs the scanner over what the reader holds.
    ///
    /// Returns the title once the bytes seen so far hold a complete one, and
    /// `None` while they do not: after the last read, `None` means the body
    /// has no title. The bytes kept for later stay fewer than the tag name's
    /// length.
    pub fn extract_title(&mut self) -> (r: Result<Option<String>, FetchError>)
        requires
            old(self).inv(),
        ensures
            final(self).inv(),
            final(self).seen() == old(self).seen(),
            final(self).reports(old(self).seen(), r),
    {
        loop
            invariant
                self.inv(),
                self.seen() == old(self).seen(),
            decreases self.progress(),
        {
            let step = match self.state {
                TitleState::Start => self.step_start(),
                TitleState::Name => self.step_name(),
                TitleState::Attributes => self.step_attributes(),
                TitleState::Value => self.step_value(),
            };
            if let Some(r) = step {
                return r;
            }
        }
    }

    fn step_start(&mut self) -> (r: Option<Result<Option<String>, FetchError>>)
        requires
            old(self).inv(),
            old(self).state == TitleState::Start,
        ensures
            final(self).inv(),
            final(self).seen() == old(self).seen(),
            match r {
                None => final(self).progress() < old(self).progress(),
                Some(x) => final(self).reports(old(self).seen(), x),
            },
    {
        let ghost s = self.seen@;
        let ghost p = self.pos@;
        let n = self.buffer.len();
        match find_byte_from(self.buffer.as_slice(), LT, 0) {
            Some(t) => {
                proof {
                    lemma_first_from(self.buffer@, LT, 0);
                    assert(s[p + t] == self.buffer@[t as int]);
                    assert forall|i: int| p <= i < p + t implies #[trigger] s[i] != LT by {
                        assert(s[i] == self.buffer@[i - p]);
                    }
                }
                drop_front(&mut self.buffer, t + 1);
                self.pos = Ghost(p + t + 1);
                self.state = TitleState::Name;
                assert(self.buffer@ =~= s.subrange(p + t + 1, s.len() as int));
                None
            },
            None => {
                proof {
                    lemma_first_from(self.buffer@, LT, 0);
                    assert forall|i: int| p <= i < s.len() implies #[trigger] s[i] != LT by {
                        assert(s[i] == self.buffer@[i - p]);
                    }
                    lemma_passes_scan(s, 0, s.len() as int);
                }
                if n >= TAG_LEN {
                    drop_front(&mut self.buffer, n - (TAG_LEN - 1));
                    self.pos = Ghost(s.len() - (TAG_LEN - 1));
                    assert(self.buffer@ =~= s.subrange(s.len() - (TAG_LEN - 1), s.len() as int));
                }
                Some(Ok(None))
            },
        }
    }

    fn step_name(&mut self) -> (r: Option<Result<Option<String>, FetchError>>)
        requires
            old(self).inv(),
            old(self).state == TitleState::Name,
        ensures
            final(self).inv(),
            final(self).seen() == old(self).seen(),
            match r {
                None => final(self).progress() < old(self).progress(),
                Some(x) => final(self).reports(old(self).seen(), x),
            },
    {
        let ghost s = self.seen@;
        let ghost p = self.pos@;
        let n = self.buffer.len();
        if n < TAG_LEN {
            proof {
                lemma_passes_scan(s, 0, p - 1);
            }
            return Some(Ok(None));
        }
        proof {
            assert(tag_window(s, p - 1) =~= self.buffer@.subrange(0, TAG_LEN as int));
        }
        if is_title_name(self.buffer.as_slice()) {
            self.tag = Ghost(p - 1);
            self.state = TitleState::Attributes;
            None
        } else {
            let name = utf8_text(vstd::slice::slice_subrange(self.buffer.as_slice(), 0, TAG_LEN));
            if name.is_none() {
                proof {
                    lemma_passes_scan(s, 0, p - 1);
                }
                return Some(Err(FetchError::NonUtf8Content));
            }
            self.state = TitleState::Start;
            assert(passable(s, p - 1));
            None
        }
    }

    fn step_attributes(&mut self) -> (r: Option<Result<Option<String>, FetchError>>)
        requires
            old(self).inv(),
            old(self).state == TitleState::Attributes,
        ensures
            final(self).inv(),
            final(self).seen() == old(self).seen(),
            match r {
                None => final(self).progress() < old(self).progress(),
                Some(x) => final(self).reports(old(self).seen(), x),
            },
    {
        let ghost s = self.seen@;
        let ghost p = self.pos@;
        let ghost tag = self.tag@;
        let n = self.buffer.len();
        match find_byte_from(self.buffer.as_slice(), GT, 0) {
            Some(t) => {
                proof {
                    lemma_first_from(self.buffer@, GT, 0);
                    assert(s[p + t] == self.buffer@[t as int]);
                    assert forall|i: int| tag + 1 <= i < p + t implies #[trigger] s[i] != GT by {
                        if i >= p {
                            assert(s[i] == self.buffer@[i - p]);
                        }
                    }
                }
                drop_front(&mut self.buffer, t + 1);
                self.title = Vec::new();
                self.close = Ghost(p + t);
                self.pos = Ghost(p + t + 1);
                self.state = TitleState::Value;
                assert(self.buffer@ =~= s.subrange(p + t + 1, s.len() as int));
                assert(self.title@ =~= s.subrange(p + t + 1, p + t + 1));
                None
            },
            None => {
                proof {
                    lemma_first_from(self.buffer@, GT, 0);
                    assert forall|i: int| tag + 1 <= i < s.len() implies #[trigger] s[i] != GT by {
                        if i >= p {
                            assert(s[i] == self.buffer@[i - p]);
                        }
                    }
                    lemma_first_from_is(s, GT, tag + 1, None);
                    lemma_passes_scan(s, 0, tag);
                }
                self.buffer.clear();
                self.pos = Ghost(s.len() as int);
                assert(self.buffer@ =~= s.subrange(s.len() as int, s.len() as int));
                Some(Ok(None))
            },
        }
    }

    fn step_value(&mut self) -> (r: Option<Result<Option<String>, FetchError>>)
        requires
            old(self).inv(),
            old(self).state == TitleState::Value,
        ensures
            final(self).inv(),
            final(self).seen() == old(self).seen(),
            match r {
                None => final(self).progress() < old(self).progress(),
                Some(x) => final(self).reports(old(self).seen(), x),
            },
    {
        let ghost s = self.seen@;
        let ghost p = self.pos@;
        let ghost tag = self.tag@;
        let ghost close = self.close@;
        proof {
            lemma_first_from_is(s, GT, tag + 1, Some(close));
            lemma_passes_scan(s, 0, tag);
        }
        let n = self.buffer.len();
        match find_byte_from(self.buffer.as_slice(), LT, 0) {
            Some(t) => {
                proof {
                    lemma_first_from(self.buffer@, LT, 0);
                    assert(s[p + t] == self.buffer@[t as int]);
                    assert forall|i: int| close + 1 <= i < p + t implies #[trigger] s[i] != LT by {
                        if i >= p {
                            assert(s[i] == self.buffer@[i - p]);
                        }
                    }
                    lemma_first_from_is(s, LT, close + 1, Some(p + t));
                }
                append_range(&mut self.title, self.buffer.as_slice(), 0, t);
                drop_front(&mut self.buffer, t);
                self.pos = Ghost(p + t);
                assert(self.buffer@ =~= s.subrange(p + t, s.len() as int));
                assert(self.title@ =~= s.subrange(close + 1, p + t));
                let found = utf8_lossy(self.title.as_slice());
                Some(Ok(Some(found)))
            },
            None => {
                proof {
                    lemma_first_from(self.buffer@, LT, 0);
                    assert forall|i: int| close + 1 <= i < s.len() implies #[trigger] s[i] != LT by {
                        if i >= p {
                            assert(s[i] == self.buffer@[i - p]);
                        }
                    }
                    lemma_first_from_is(s, LT, close + 1, None);
                }
                append_range(&mut self.title, self.buffer.as_slice(), 0, n);
                self.buffer.clear();
                self.pos = Ghost(s.len() as int);
                assert(self.buffer@ =~= s.subrange(s.len() as int, s.len() as int));
                assert(self.title@ =~= s.subrange(close + 1, s.len() as int));
                Some(Ok(None))
            },
        }
    }
}

/// The first `TAG_LEN` bytes of `v` spell `title`, in any letter case.
fn is_title_name(v: &[u8]) -> (r: bool)
    requires
        TAG_LEN <= v@.len(),
    ensures
        r == eq_ignore_case(v@.subrange(0, TAG_LEN as int), title_tag()),
{
    let r = lower_byte(v[0]) == 116 && lower_byte(v[1]) == 105 && lower_byte(v[2]) == 116
        && lower_byte(v[3]) == 108 && lower_byte(v[4]) == 101;
    proof {
        let w = v@.subrange(0, TAG_LEN as int);
        let t = title_tag();
        assert(forall|i: int| 0 <= i < TAG_LEN ==> #[trigger] w[i] == v@[i]);
        assert(forall|i: int| 0 <= i < TAG_LEN ==> #[trigger] lower(t[i]) == t[i]);
        if r {
            assert forall|i: int| 0 <= i < w.len() implies #[trigger] lower(w[i]) == lower(t[i]) by {
                assert(0 <= i < 5);
            }
        } else {
            if eq_ignore_case(w, t) {
                assert(lower(w[0]) == lower(t[0]));
                assert(lower(w[1]) == lower(t[1]));
                assert(lower(w[2]) == lower(t[2]));
                assert(lower(w[3]) == lower(t[3]));
                assert(lower(w[4]) == lower(t[4]));
            }
        }
    }
    r
}

/// Facts about `s` before index `s.len()` stay true of `s + u`.
proof fn lemma_extend(s: Seq<u8>, u: Seq<u8>)
    ensures
        forall|a: int, b: int| 0 <= a <= b <= s.len() ==> passes(s, a, b) ==> passes(s + u, a, b),
        forall|i: int| opens_title(s, i) ==> opens_title(s + u, i),
        forall|a: int, b: int, x: u8| 0 <= a && b <= s.len() ==> absent(s, x, a, b) ==> absent(s + u, x, a, b),
{
    let t = s + u;
    assert forall|i: int| 0 <= i && i + 1 + TAG_LEN <= s.len() implies #[trigger] tag_window(t, i)
        == tag_window(s, i) by {
        assert(tag_window(t, i) =~= tag_window(s, i));
    }
    assert forall|a: int, b: int| 0 <= a <= b <= s.len() && passes(s, a, b) implies passes(t, a, b) by {
        assert forall|i: int| a <= i < b && #[trigger] t[i] == LT implies passable(t, i) by {
            assert(s[i] == t[i]);
            assert(passable(s, i));
            assert(tag_window(t, i) == tag_window(s, i));
        }
    }
    assert forall|i: int| opens_title(s, i) implies opens_title(t, i) by {
        assert(tag_window(t, i) == tag_window(s, i));
    }
    assert forall|a: int, b: int, x: u8| 0 <= a && b <= s.len() && absent(s, x, a, b) implies absent(t, x, a, b) by {
        assert forall|j: int| a <= j < b implies #[trigger] t[j] != x by {
            assert(t[j] == s[j]);
        }
    }
}

} // verus!
