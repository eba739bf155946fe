//! The server's answer to a login frame.

use vstd::prelude::*;

use crate::bytes;
use crate::net::Ipv4Addr;
use crate::text;

verus! {

/// The shortest success answer that carries a session cookie.
pub const SUCCESS_LEN: usize = 39;

/// The failure code whose answer carries a message.
pub const MESSAGE_CODE: u8 = 21;

#[derive(Debug, Clone, PartialEq, Eq)]
pub struct LoginSuccess {
    pub session_cookie: [u8; 16],
    pub raw: Vec<u8>,
}

#[derive(Debug, Clone, PartialEq, Eq)]
pub struct LoginFailure {
    pub code: u8,
    pub ip: Option<Ipv4Addr>,
    pub mac: Option<[u8; 6]>,
    /// The text of a code 21 answer, exactly as it arrived.
    pub message: Option<Vec<u8>>,
}

#[derive(Debug, Clone, PartialEq, Eq)]
pub enum LoginResponse {
    Success(LoginSuccess),
    /// A success that ends before its cookie, exactly as it arrived.
    ShortSuccess(Vec<u8>),
    Failure(LoginFailure),
    Other(u8),
    TooShort,
}

/// What a failure states.
pub struct FailureView {
    pub code: u8,
    pub ip: Option<Ipv4Addr>,
    pub mac: Option<Seq<u8>>,
    pub message: Option<Seq<u8>>,
}

/// What an answer states.
pub enum ResponseView {
    Success { session_cookie: Seq<u8>, raw: Seq<u8> },
    ShortSuccess { raw: Seq<u8> },
    Failure(FailureView),
    Other(u8),
    TooShort,
}

impl View for LoginFailure {
    type V = FailureView;

    open spec fn view(&self) -> FailureView {
        FailureView {
            code: self.code,
            ip: self.ip,
            mac: match self.mac {
                Some(mac) => Some(mac@),
                None => None,
            },
            message: match self.message {
                Some(message) => Some(message@),
                None => None,
            },
        }
    }
}

impl View for LoginResponse {
    type V = ResponseView;

    open spec fn view(&self) -> ResponseView {
        match *self {
            LoginResponse::Success(success) => ResponseView::Success {
                session_cookie: success.session_cookie@,
                raw: success.raw@,
            },
            LoginResponse::ShortSuccess(raw) => ResponseView::ShortSuccess { raw: raw@ },
            LoginResponse::Failure(failure) => ResponseView::Failure(failure@),
            LoginResponse::Other(kind) => ResponseView::Other(kind),
            LoginResponse::TooShort => ResponseView::TooShort,
        }
    }
}

/// What a failure answer of at least five bytes states. Codes 1 and 7 carry the registered
/// address, codes 1 and 11 the registered MAC, code 21 a message.
pub open spec fn failure_of(data: Seq<u8>) -> FailureView {
    let code = data[4];
    FailureView {
        code,
        ip: if (code == 1 || code == 7) && data.len() >= 9 {
            Some(Ipv4Addr { a: data[5], b: data[6], c: data[7], d: data[8] })
        } else {
            None
        },
        mac: if (code == 1 || code == 11) && data.len() >= 15 {
            Some(data.subrange(9, 15))
        } else {
            None
        },
        message: if code == MESSAGE_CODE && data.len() > 20 && data[20] != 0 {
            Some(data.skip(20))
        } else {
            None
        },
    }
}

/// What an answer states. A success that is too short for a cookie keeps its bytes and gets none.
pub open spec fn parsed(data: Seq<u8>) -> ResponseView {
    if data.len() == 0 {
        ResponseView::TooShort
    } else if data[0] == 0x04 {
        if data.len() < SUCCESS_LEN {
            ResponseView::ShortSuccess { raw: data }
        } else {
            ResponseView::Success { session_cookie: data.subrange(23, 39), raw: data }
        }
    } else if data[0] == 0x05 {
        if data.len() < 5 {
            ResponseView::TooShort
        } else {
            ResponseView::Failure(failure_of(data))
        }
    } else {
        ResponseView::Other(data[0])
    }
}

/// The ASCII white-space bytes: space, tab, line feed, form feed, carriage return.
pub open spec fn blank(byte: u8) -> bool {
    byte == 0x20 || byte == 0x09 || byte == 0x0a || byte == 0x0c || byte == 0x0d
}

/// `data` without the blank bytes at its end.
pub open spec fn unpadded_end(data: Seq<u8>) -> Seq<u8>
    decreases data.len(),
{
    if data.len() > 0 && blank(data.last()) {
        unpadded_end(data.drop_last())
    } else {
        data
    }
}

/// The text of a fixed-width message: what stands before the first zero byte, without the blank
/// bytes at its end.
pub open spec fn message_core(data: Seq<u8>) -> Seq<u8> {
    unpadded_end(bytes::until_nul(data))
}

/// What `String::from_utf8_lossy` makes of bytes: their text, with replacement characters where
/// they are not UTF-8.
pub uninterp spec fn utf8_lossy(data: Seq<u8>) -> Seq<char>;

/// `String::from_utf8_lossy` of std. Bytes that are UTF-8 give the text they encode; of other
/// bytes only that the text depends on nothing but them.
#[verifier::external_body]
fn lossy_text(data: &[u8]) -> (decoded: String)
    ensures
        decoded@ == utf8_lossy(data@),
        vstd::utf8::valid_utf8(data@) ==> decoded@ == vstd::utf8::decode_utf8(data@),
{
    String::from_utf8_lossy(data).into_owned()
}

/// What `String::from_utf16_lossy` makes of code units: their text, with replacement characters
/// where they are not UTF-16.
pub uninterp spec fn utf16_lossy(units: Seq<u16>) -> Seq<char>;

/// `String::from_utf16_lossy` of std. Code units that are UTF-16 give the text they encode; of
/// other units only that the text depends on nothing but them.
#[verifier::external_body]
fn units_text(units: &[u16]) -> (decoded: String)
    ensures
        decoded@ == utf16_lossy(units@),
        forall|words: Seq<char>| units@ == #[trigger] text::utf16(words) ==> decoded@ == words,
{
    String::from_utf16_lossy(units)
}

/// The text of message bytes, given the UTF-16 code units that the system's conversion from code
/// page 936 makes of them. Where it makes none, because it fails or there is no such system, the
/// bytes are read as UTF-8.
pub open spec fn decoded(data: Seq<u8>, converted: Seq<u16>) -> Seq<char> {
    if converted.len() > 0 {
        utf16_lossy(converted)
    } else {
        utf8_lossy(data)
    }
}

/// The message bytes of a failure that are worth showing, if there are any.
pub open spec fn shown_message(failure: FailureView) -> Option<Seq<u8>> {
    match failure.message {
        Some(message) => if message_core(message).len() > 0 {
            Some(message_core(message))
        } else {
            None
        },
        None => None,
    }
}

impl LoginFailure {
    /// The server's own explanation as bytes, without padding, where it gives one. It is written in
    /// simplified Chinese, code page 936; these bytes are to be converted for `message_text`.
    pub fn message_bytes(&self) -> (message: Option<Vec<u8>>)
        ensures
            match message {
                Some(shown) => shown_message(self@) == Some(shown@),
                None => shown_message(self@) is None,
            },
    {
        match &self.message {
            Some(message) => {
                let core = trimmed_message(message);
                if core.len() == 0 {
                    None
                } else {
                    Some(vstd::slice::slice_to_vec(core))
                }
            },
            None => None,
        }
    }

    /// The server's own explanation, ready to show, where it gives one. `converted` are the code
    /// units that the system's conversion from code page 936 makes of `message_bytes`.
    pub fn message_text(&self, converted: &[u16]) -> (text: Option<String>)
        ensures
            match text {
                Some(shown) => shown_message(self@) is Some && shown@ == decoded(
                    shown_message(self@)->0,
                    converted@,
                ),
                None => shown_message(self@) is None,
            },
            text matches Some(shown) ==> forall|words: Seq<char>|
                converted@.len() > 0 && converted@ == #[trigger] text::utf16(words) ==> shown@
                    == words,
            text matches Some(shown) ==> (converted@.len() == 0 && vstd::utf8::valid_utf8(
                shown_message(self@)->0,
            ) ==> shown@ == vstd::utf8::decode_utf8(shown_message(self@)->0)),
    {
        match self.message_bytes() {
            Some(core) => Some(decode_simplified_chinese(&core, converted)),
            None => None,
        }
    }
}

/// The text of message bytes, given what the system's conversion from code page 936 makes of them.
pub fn decode_simplified_chinese(data: &[u8], converted: &[u16]) -> (text: String)
    ensures
        text@ == decoded(data@, converted@),
        forall|words: Seq<char>|
            converted@.len() > 0 && converted@ == #[trigger] text::utf16(words) ==> text@ == words,
        converted@.len() == 0 && vstd::utf8::valid_utf8(data@) ==> text@
            == vstd::utf8::decode_utf8(data@),
{
    if converted.len() > 0 {
        units_text(converted)
    } else {
        lossy_text(data)
    }
}

fn is_blank(byte: u8) -> (yes: bool)
    ensures
        yes == blank(byte),
{
    byte == 0x20 || byte == 0x09 || byte == 0x0a || byte == 0x0c || byte == 0x0d
}

/// The text of a fixed-width message.
pub fn trimmed_message<'a>(data: &'a [u8]) -> (core: &'a [u8])
    ensures
        core@ == message_core(data@),
{
    let nul: usize = bytes::nul_position(data);
    let ghost front = bytes::until_nul(data@);
    assert(data@.subrange(0, nul as int) =~= front);
    let mut end: usize = nul;
    while end > 0 && is_blank(data[end - 1])
        invariant
            end <= data@.len(),
            unpadded_end(front) == unpadded_end(data@.subrange(0, end as int)),
        decreases end,
    {
        let ghost now = data@.subrange(0, end as int);
        assert(now.last() == data@[end - 1]);
        assert(now.drop_last() =~= data@.subrange(0, end - 1));
        end -= 1;
    }
    proof {
        let now = data@.subrange(0, end as int);
        if now.len() > 0 {
            assert(now.last() == data@[end - 1]);
        }
    }
    vstd::slice::slice_subrange(data, 0, end)
}

/// Reads the server's answer to a login frame.
pub fn parse(bytes: &[u8]) -> (response: LoginResponse)
    ensures
        response@ == parsed(bytes@),
{
    let len: usize = bytes.len();
    if len == 0 {
        return LoginResponse::TooShort;
    }
    let kind: u8 = bytes[0];
    if kind == 0x04 {
        if len < SUCCESS_LEN {
            return LoginResponse::ShortSuccess(vstd::slice::slice_to_vec(bytes));
        }
        LoginResponse::Success(
            LoginSuccess {
                session_cookie: bytes::array_at::<16>(bytes, 23),
                raw: vstd::slice::slice_to_vec(bytes),
            },
        )
    } else if kind == 0x05 {
        if len < 5 {
            return LoginResponse::TooShort;
        }
        let code: u8 = bytes[4];
        let ip = if (code == 1 || code == 7) && len >= 9 {
            Some(Ipv4Addr::new(bytes[5], bytes[6], bytes[7], bytes[8]))
        } else {
            None
        };
        let mac = if (code == 1 || code == 11) && len >= 15 {
            Some(bytes::array_at::<6>(bytes, 9))
        } else {
            None
        };
        let message = if code == MESSAGE_CODE && len > 20 && bytes[20] != 0 {
            assert(bytes@.subrange(20, len as int) =~= bytes@.skip(20));
            Some(vstd::slice::slice_to_vec(vstd::slice::slice_subrange(bytes, 20, len)))
        } else {
            None
        };
        LoginResponse::Failure(LoginFailure { code, ip, mac, message })
    } else {
        LoginResponse::Other(kind)
    }
}

/// No cookie is invented: an answer gives one exactly where it is a success that holds all of it,
/// and a success is kept as it arrived whether it does or not.
pub proof fn law_a_cookie_is_never_invented(data: Seq<u8>)
    ensures
        match parsed(data) {
            ResponseView::Success { session_cookie, raw } => {
                &&& data[0] == 0x04
                &&& data.len() >= SUCCESS_LEN
                &&& session_cookie == data.subrange(23, 39)
                &&& raw == data
            },
            ResponseView::ShortSuccess { raw } => {
                &&& 0 < data.len() < SUCCESS_LEN
                &&& data[0] == 0x04
                &&& raw == data
            },
            _ => data.len() == 0 || data[0] != 0x04,
        },
{
}

/// A shown message is never empty, holds no zero byte and does not end blank, and is otherwise what
/// the server sent: only its end is cut, before a zero byte, a blank one or nothing.
pub proof fn law_padding_never_reaches_the_user(failure: FailureView)
    requires
        shown_message(failure) is Some,
    ensures
        ({
            let message = failure.message->0;
            let shown = shown_message(failure)->0;
            &&& 0 < shown.len() <= message.len()
            &&& shown == message.subrange(0, shown.len() as int)
            &&& !blank(shown.last())
            &&& forall|i: int| 0 <= i < shown.len() ==> shown[i] != 0
            &&& shown.len() < message.len() ==> blank(message[shown.len() as int])
                || message[shown.len() as int] == 0
        }),
{
    let message = failure.message->0;
    lemma_until_nul_is_a_prefix(message);
    let front = bytes::until_nul(message);
    lemma_end(front);
    let shown = shown_message(failure)->0;
    assert forall|i: int| 0 <= i < shown.len() implies #[trigger] shown[i] == message[i] && shown[i]
        != 0 by {
        assert(shown[i] == front[i]);
    }
    if shown.len() < front.len() {
        assert(front[shown.len() as int] == message[shown.len() as int]);
    }
    assert(shown =~= message.subrange(0, shown.len() as int));
}

proof fn lemma_until_nul_is_a_prefix(data: Seq<u8>)
    ensures
        bytes::until_nul(data).len() <= data.len(),
        forall|i: int|
            0 <= i < bytes::until_nul(data).len() ==> bytes::until_nul(data)[i] != 0
                && #[trigger] bytes::until_nul(data)[i] == data[i],
        bytes::until_nul(data).len() < data.len() ==> data[bytes::until_nul(data).len() as int]
            == 0,
    decreases data.len(),
{
    if data.len() > 0 && data[0] != 0 {
        lemma_until_nul_is_a_prefix(data.skip(1));
        let rest = bytes::until_nul(data.skip(1));
        let all = bytes::until_nul(data);
        assert forall|i: int| 0 <= i < all.len() implies all[i] != 0 && #[trigger] all[i]
            == data[i] by {
            if i > 0 {
                assert(all[i] == rest[i - 1]);
                assert(rest[i - 1] == data.skip(1)[i - 1]);
            }
        }
    }
}

proof fn lemma_end(data: Seq<u8>)
    ensures
        unpadded_end(data).len() > 0 ==> !blank(unpadded_end(data).last()),
        unpadded_end(data).len() <= data.len(),
        forall|i: int| 0 <= i < unpadded_end(data).len() ==> unpadded_end(data)[i] == data[i],
        unpadded_end(data).len() < data.len() ==> blank(data[unpadded_end(data).len() as int]),
    decreases data.len(),
{
    if data.len() > 0 && blank(data.last()) {
        lemma_end(data.drop_last());
        let rest = unpadded_end(data);
        assert forall|i: int| 0 <= i < rest.len() implies rest[i] == data[i] by {
            assert(rest[i] == data.drop_last()[i]);
        }
    }
}

/// An answer is a success where it begins with 4, with a cookie from 39 bytes on, and a failure
/// where it begins with 5 and has at least five bytes. Without any byte, or as a shorter failure,
/// it says nothing; every other beginning is handed on.
pub proof fn law_what_an_answer_is(data: Seq<u8>)
    ensures
        parsed(data) is TooShort <==> (data.len() == 0 || (data[0] == 5 && data.len() <= 4)),
        parsed(data) is Success <==> (data.len() >= 39 && data[0] == 4),
        parsed(data) is ShortSuccess <==> (1 <= data.len() <= 38 && data[0] == 4),
        parsed(data) is Failure <==> (data.len() >= 5 && data[0] == 5),
        data.len() > 0 && data[0] != 4 && data[0] != 5 <==> parsed(data) is Other,
        parsed(data) matches ResponseView::Other(kind) ==> kind == data[0],
        parsed(data) matches ResponseView::Failure(failure) ==> failure.code == data[4],
        parsed(data) matches ResponseView::ShortSuccess { raw } ==> raw == data,
        parsed(data) matches ResponseView::Success { session_cookie, raw } ==> raw == data
            && session_cookie.len() == 16 && forall|i: int|
            0 <= i < 16 ==> #[trigger] session_cookie[i] == data[23 + i],
{
}

/// The registered address stands at offset 5 of failures 1 and 7, the registered hardware address
/// at offset 9 of failures 1 and 11, each where the answer is long enough to hold it.
pub proof fn law_what_a_failure_states(data: Seq<u8>)
    requires
        data.len() >= 5,
        data[0] == 5,
    ensures
        ({
            let failure = failure_of(data);
            &&& parsed(data) == ResponseView::Failure(failure)
            &&& failure.code == data[4]
            &&& failure.ip is Some <==> ((data[4] == 1 || data[4] == 7) && data.len() >= 9)
            &&& failure.ip matches Some(ip) ==> ip.a == data[5] && ip.b == data[6] && ip.c
                == data[7] && ip.d == data[8]
            &&& failure.mac is Some <==> ((data[4] == 1 || data[4] == 11) && data.len() >= 15)
            &&& failure.mac matches Some(mac) ==> mac.len() == 6 && forall|i: int|
                0 <= i < 6 ==> #[trigger] mac[i] == data[9 + i]
            &&& failure.message is Some <==> (data[4] == 21 && data.len() >= 21 && data[20] != 0)
            &&& failure.message matches Some(message) ==> message.len() == data.len() - 20
                && forall|i: int| 0 <= i < message.len() ==> #[trigger] message[i] == data[20 + i]
        }),
{
}

/// A message is shown as it stands, without the blanks behind it, whether its field ends there or
/// goes on behind a zero byte. A message of blanks alone is not shown.
pub proof fn law_a_message_is_shown_without_its_padding(
    failure: FailureView,
    words: Seq<u8>,
    blanks: Seq<u8>,
    behind: Seq<u8>,
)
    requires
        forall|i: int| 0 <= i < words.len() ==> #[trigger] words[i] != 0,
        forall|i: int|
            0 <= i < blanks.len() ==> #[trigger] blanks[i] == 32 || blanks[i] == 9 || blanks[i] == 10
                || blanks[i] == 12 || blanks[i] == 13,
        words.len() > 0 ==> words.last() != 32 && words.last() != 9 && words.last() != 10
            && words.last() != 12 && words.last() != 13,
        failure.message is Some,
        failure.message->0 == words + blanks || failure.message->0 == words + blanks + seq![0u8]
            + behind,
    ensures
        words.len() > 0 ==> shown_message(failure) == Some(words),
        words.len() == 0 ==> shown_message(failure) is None,
{
    let line = words + blanks;
    assert forall|i: int| 0 <= i < line.len() implies #[trigger] line[i] != 0 by {
        if i < words.len() {
            assert(line[i] == words[i]);
        } else {
            assert(line[i] == blanks[i - words.len()]);
        }
    }
    bytes::law_the_first_zero_byte_ends_the_text(line, behind);
    lemma_blanks_at_the_end(words, blanks);
    assert(message_core(failure.message->0) == words);
}

proof fn lemma_blanks_at_the_end(words: Seq<u8>, blanks: Seq<u8>)
    requires
        forall|i: int| 0 <= i < blanks.len() ==> blank(#[trigger] blanks[i]),
        words.len() > 0 ==> !blank(words.last()),
    ensures
        unpadded_end(words + blanks) == words,
    decreases blanks.len(),
{
    let line = words + blanks;
    if blanks.len() == 0 {
        assert(line =~= words);
    } else {
        assert(line.last() == blanks.last());
        assert(blank(blanks[blanks.len() - 1]));
        assert(line.drop_last() =~= words + blanks.drop_last());
        lemma_blanks_at_the_end(words, blanks.drop_last());
    }
}

/// The conversion of the system is used where it gave anything, and the bytes are read as UTF-8
/// where it gave nothing.
pub proof fn law_which_reading_counts(data: Seq<u8>, converted: Seq<u16>, unit: u16)
    ensures
        decoded(data, Seq::empty()) == utf8_lossy(data),
        decoded(data, converted.push(unit)) == utf16_lossy(converted.push(unit)),
{
}

} // verus!
