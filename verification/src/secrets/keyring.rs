//! A session kept in the desktop's secret service.
//!
//! The service is asked on a thread of its own, and nothing waits on it for
//! longer than it is prepared to. This file decides what the service is handed,
//! what its replies mean, and when it is not asked any more.

use vstd::prelude::*;
use vstd::string::*;
use vstd::utf8::*;

use crate::text::{
    self, chars_of, has_prefix, same_text, text_between, text_of_bytes, to_decimal,
};

verus! {

broadcast use vstd::string::group_string_axioms;

pub const SERVICE: &'static str = "org.freedesktop.secrets";

pub const SERVICE_PATH: &'static str = "/org/freedesktop/secrets";

pub const IFACE_SERVICE: &'static str = "org.freedesktop.Secret.Service";

pub const IFACE_COLLECTION: &'static str = "org.freedesktop.Secret.Collection";

pub const IFACE_ITEM: &'static str = "org.freedesktop.Secret.Item";

/// What a stored body is, as far as the service is concerned.
pub const CONTENT_TYPE: &'static str = "text/plain; charset=utf8";

/// What a body stored by this library begins with. What follows is one line of
/// ASCII, because a service may cut a text at a separator.
pub const ENCODED_PREFIX: &'static str = "cordial-secret-hex-v1:";

/// How long the first question may take, in seconds.
pub const PROBE_TIMEOUT: u64 = 2;

/// How long any later read or write may take, in seconds.
pub const CALL_TIMEOUT: u64 = 5;

/// What the service answers: a body, nothing, or a reason to report and carry
/// on from.
pub type Answer = Result<Option<String>, String>;

/// An answer as a value.
pub open spec fn answer_view(answer: Answer) -> Result<Option<Seq<char>>, Seq<char>> {
    match answer {
        Ok(Some(body)) => Ok(Some(body@)),
        Ok(None) => Ok(None),
        Err(why) => Err(why@),
    }
}

/// Bytes as pairs of hexadecimal digits in lower case.
pub open spec fn hex_of(bytes: Seq<u8>) -> Seq<char> {
    Seq::new(
        2 * bytes.len(),
        |i: int|
            if i % 2 == 0 {
                text::hex_char(bytes[i / 2] as int / 16int)
            } else {
                text::hex_char(bytes[i / 2] as int % 16int)
            },
    )
}

/// A body as the service stores it.
pub open spec fn encoded(body: Seq<char>) -> Seq<char> {
    ENCODED_PREFIX@ + hex_of(encode_utf8(body))
}

fn hex_digit(n: u8) -> (c: char)
    requires
        n < 16,
    ensures
        c == text::hex_char(n as int),
{
    if n < 10 {
        (48 + n) as char
    } else {
        (87 + n) as char
    }
}

/// A body as the service stores it.
pub fn encode_keyring(body: &str) -> (stored: String)
    ensures
        stored@ == encoded(body@),
{
    let bytes = body.as_bytes();
    let mut stored = ENCODED_PREFIX.to_owned();
    let mut i: usize = 0;
    while i < bytes.len()
        invariant
            0 <= i <= bytes@.len(),
            bytes@ == encode_utf8(body@),
            stored@ == ENCODED_PREFIX@ + hex_of(bytes@.take(i as int)),
        decreases bytes@.len() - i,
    {
        let byte: u8 = bytes[i];
        stored.push(hex_digit(byte / 16));
        stored.push(hex_digit(byte % 16));
        i = i + 1;
        assert(hex_of(bytes@.take(i as int)) =~= hex_of(bytes@.take(i - 1)).push(
            text::hex_char(byte as int / 16int),
        ).push(text::hex_char(byte as int % 16int)));
        assert(stored@ =~= ENCODED_PREFIX@ + hex_of(bytes@.take(i as int)));
    }
    assert(bytes@.take(bytes@.len() as int) =~= bytes@);
    stored
}

/// The value of a hexadecimal digit.
pub open spec fn digit_value(c: char) -> Option<int> {
    if '0' <= c <= '9' {
        Some(c as int - 0x30)
    } else if 'a' <= c <= 'f' {
        Some(c as int - 0x57)
    } else if 'A' <= c <= 'F' {
        Some(c as int - 0x37)
    } else {
        None
    }
}

/// The bytes that pairs of hexadecimal digits stand for.
pub open spec fn bytes_of_hex(hex: Seq<char>) -> Option<Seq<u8>> {
    if hex.len() % 2 == 0 && forall|i: int|
        0 <= i < hex.len() ==> digit_value(#[trigger] hex[i]) is Some {
        Some(
            Seq::new(
                hex.len() / 2,
                |i: int| (digit_value(hex[2 * i])->0 * 16 + digit_value(hex[2 * i + 1])->0) as u8,
            ),
        )
    } else {
        None
    }
}

/// The body a stored text stands for, where it was stored by this library and
/// is whole.
pub open spec fn decoded(stored: Seq<char>) -> Option<Seq<char>> {
    if text::begins_with(stored, ENCODED_PREFIX@) {
        match bytes_of_hex(stored.skip(ENCODED_PREFIX@.len() as int)) {
            Some(bytes) => if valid_utf8(bytes) {
                Some(decode_utf8(bytes))
            } else {
                None
            },
            None => None,
        }
    } else {
        None
    }
}

fn digit(c: char) -> (value: Option<u8>)
    ensures
        match value {
            Some(value) => digit_value(c) == Some(value as int) && value < 16,
            None => digit_value(c) is None,
        },
{
    if '0' <= c && c <= '9' {
        Some(c as u8 - 48)
    } else if 'a' <= c && c <= 'f' {
        Some(c as u8 - 87)
    } else if 'A' <= c && c <= 'F' {
        Some(c as u8 - 55)
    } else {
        None
    }
}

/// The body a stored text stands for.
pub fn decode_keyring(stored: &str) -> (body: Option<String>)
    ensures
        match body {
            Some(body) => decoded(stored@) == Some(body@),
            None => decoded(stored@) is None,
        },
{
    let chars = chars_of(stored);
    let prefix = chars_of(ENCODED_PREFIX);
    if !has_prefix(&chars, &prefix) {
        return None;
    }
    let start: usize = prefix.len();
    let ghost hex = stored@.skip(start as int);
    if (chars.len() - start) % 2 != 0 {
        return None;
    }
    let mut bytes: Vec<u8> = Vec::new();
    let mut i: usize = start;
    while i < chars.len()
        invariant
            start <= i <= chars.len(),
            chars@ == stored@,
            hex == stored@.skip(start as int),
            text::begins_with(stored@, ENCODED_PREFIX@),
            start == ENCODED_PREFIX@.len(),
            hex.len() % 2 == 0,
            (i - start) % 2 == 0,
            bytes@.len() == (i - start) / 2,
            forall|j: int| 0 <= j < i - start ==> digit_value(#[trigger] hex[j]) is Some,
            forall|j: int|
                0 <= j < bytes@.len() ==> #[trigger] bytes@[j] == (digit_value(hex[2 * j])->0 * 16
                    + digit_value(hex[2 * j + 1])->0) as u8,
        decreases chars@.len() - i,
    {
        assert(hex[i - start] == chars@[i as int]);
        assert(hex[i - start + 1] == chars@[i + 1]);
        match (digit(chars[i]), digit(chars[i + 1])) {
            (Some(high), Some(low)) => {
                bytes.push(high * 16 + low);
            },
            _ => {
                return None;
            },
        }
        i = i + 2;
    }
    assert(bytes_of_hex(hex) is Some);
    assert(bytes@ =~= bytes_of_hex(hex)->0);
    text_of_bytes(bytes.as_slice())
}

/// What is read out of an answer to a read: a body this library stored is
/// decoded, a body stored before it encoded them is itself, and one that claims
/// to be encoded and is not whole is an error.
pub open spec fn read_out(
    answer: Result<Option<Seq<char>>, Seq<char>>,
) -> Result<Option<Seq<char>>, Seq<char>> {
    match answer {
        Ok(Some(stored)) => if text::begins_with(stored, ENCODED_PREFIX@) {
            match decoded(stored) {
                Some(body) => Ok(Some(body)),
                None => Err("the stored session has an invalid encoding"@),
            }
        } else {
            Ok(Some(stored))
        },
        _ => answer,
    }
}

/// What is read out of an answer to a read.
pub fn read_keyring(answer: Answer) -> (out: Answer)
    ensures
        answer_view(out) == read_out(answer_view(answer)),
{
    match answer {
        Ok(Some(stored)) => if has_prefix(
            &chars_of(stored.as_str()),
            &chars_of(ENCODED_PREFIX),
        ) {
            match decode_keyring(stored.as_str()) {
                Some(body) => Ok(Some(body)),
                None => Err("the stored session has an invalid encoding".to_owned()),
            }
        } else {
            Ok(Some(stored))
        },
        Ok(None) => Ok(None),
        Err(why) => Err(why),
    }
}

proof fn lemma_hex_round_trip(bytes: Seq<u8>)
    ensures
        bytes_of_hex(hex_of(bytes)) == Some(bytes),
        text::all_graphic(hex_of(bytes)),
{
    let hex = hex_of(bytes);
    assert forall|i: int| 0 <= i < hex.len() implies digit_value(#[trigger] hex[i]) == Some(
        if i % 2 == 0 {
            bytes[i / 2] as int / 16int
        } else {
            bytes[i / 2] as int % 16int
        },
    ) && text::is_graphic(hex[i]) by {
        let b = bytes[i / 2] as int;
        assert(0 <= b / 16 < 16 && 0 <= b % 16 < 16);
    }
    let back = bytes_of_hex(hex)->0;
    assert forall|i: int| 0 <= i < bytes.len() implies #[trigger] back[i] == bytes[i] by {
        assert(digit_value(hex[2 * i]) == Some(bytes[i] as int / 16int));
        assert(digit_value(hex[2 * i + 1]) == Some(bytes[i] as int % 16int));
    }
    assert(back =~= bytes);
}

/// A body that is stored comes back as it was, character for character, and is
/// carried as one line of printable ASCII.
pub proof fn law_a_session_survives_the_round_trip(body: Seq<char>)
    ensures
        decoded(encoded(body)) == Some(body),
        read_out(Ok(Some(encoded(body)))) == Ok::<Option<Seq<char>>, Seq<char>>(Some(body)),
        text::all_graphic(encoded(body)),
{
    let bytes = encode_utf8(body);
    let stored = encoded(body);
    lemma_hex_round_trip(bytes);
    encode_utf8_valid_utf8(body);
    encode_utf8_decode_utf8(body);
    assert(stored.take(ENCODED_PREFIX@.len() as int) =~= ENCODED_PREFIX@);
    assert(stored.skip(ENCODED_PREFIX@.len() as int) =~= hex_of(bytes));
    reveal_strlit("cordial-secret-hex-v1:");
    let prefix = "cordial-secret-hex-v1:"@;
    assert(forall|i: int| 0 <= i < prefix.len() ==> text::is_graphic(#[trigger] prefix[i]));
    assert(ENCODED_PREFIX@ == prefix);
    assert forall|i: int| 0 <= i < stored.len() implies text::is_graphic(#[trigger] stored[i]) by {
        if i >= prefix.len() {
            assert(stored[i] == hex_of(bytes)[i - prefix.len()]);
        } else {
            assert(stored[i] == prefix[i]);
        }
    }
}

/// What became of a question once it was sent.
pub enum Delivery {
    Answered(Answer),
    /// Nothing came back in the time it was given.
    Late,
    /// The worker that asks the service panicked.
    Panicked,
    /// The worker that asks the service has gone.
    Gone,
}

/// Whether the service still answers. Once a question was not answered in time
/// the worker is still inside it, so nothing more is asked.
pub struct Patience {
    wedged: bool,
}

impl Patience {
    /// Whether the service has stopped answering.
    pub closed spec fn is_spent(self) -> bool {
        self.wedged
    }

    pub fn new() -> (patience: Patience)
        ensures
            !patience.is_spent(),
    {
        Patience { wedged: false }
    }

    /// Whether a question may be sent.
    pub fn ask(&self) -> (may: Result<(), String>)
        ensures
            match may {
                Ok(_) => !self.is_spent(),
                Err(why) => self.is_spent() && why@
                    == "the secret service stopped answering earlier this session"@,
            },
    {
        if self.wedged {
            Err("the secret service stopped answering earlier this session".to_owned())
        } else {
            Ok(())
        }
    }

    /// What a question is answered, given what became of it. One that was late
    /// is the last.
    pub fn answered(&mut self, delivery: Delivery, timeout: u64) -> (answer: Answer)
        ensures
            final(self).is_spent() == (old(self).is_spent() || delivery is Late),
            match delivery {
                Delivery::Answered(given) => answer == given,
                Delivery::Late => answer_view(answer) == Err::<Option<Seq<char>>, Seq<char>>(
                    "the secret service did not answer within "@ + text::decimal(timeout as nat)
                        + " seconds"@,
                ),
                Delivery::Panicked => answer_view(answer) == Err::<Option<Seq<char>>, Seq<char>>(
                    "the secret service worker panicked"@,
                ),
                Delivery::Gone => answer_view(answer) == Err::<Option<Seq<char>>, Seq<char>>(
                    "the secret service worker is gone"@,
                ),
            },
    {
        match delivery {
            Delivery::Answered(answer) => answer,
            Delivery::Late => {
                self.wedged = true;
                let mut why = "the secret service did not answer within ".to_owned();
                why.append(to_decimal(timeout).as_str());
                why.append(" seconds");
                Err(why)
            },
            Delivery::Panicked => Err("the secret service worker panicked".to_owned()),
            Delivery::Gone => Err("the secret service worker is gone".to_owned()),
        }
    }
}

/// What a worker does with a request.
pub enum Serve {
    /// Connect, and report how that went.
    Connect,
    /// Answer with this and do not touch the bus.
    Refuse(String),
    /// Hand it to the open connection.
    Handle,
}

/// The worker's connection. It is made on the first request, and its failure is
/// kept: the service either exists at launch or it does not.
pub enum Link {
    Untried,
    Failed(String),
    Open,
}

impl Link {
    /// What to do with a request.
    pub fn serve(&self) -> (next: Serve)
        ensures
            match *self {
                Link::Untried => next is Connect,
                Link::Failed(why) => next matches Serve::Refuse(said) && said@ == why@,
                Link::Open => next is Handle,
            },
    {
        match self {
            Link::Untried => Serve::Connect,
            Link::Failed(why) => Serve::Refuse(why.clone()),
            Link::Open => Serve::Handle,
        }
    }

    /// What the link becomes once a connection was tried. A link that was
    /// already tried stays what it is.
    pub fn connected(self, outcome: Result<(), String>) -> (link: Link)
        ensures
            match self {
                Link::Untried => match outcome {
                    Ok(_) => link is Open,
                    Err(why) => link == Link::Failed(why),
                },
                _ => link == self,
            },
    {
        match self {
            Link::Untried => match outcome {
                Ok(_) => Link::Open,
                Err(why) => Link::Failed(why),
            },
            other => other,
        }
    }
}

/// Where connecting to the service can fail. An error's own words are the
/// bus's.
pub enum ConnectFailure {
    NoBus,
    NotAddressed(String),
    NoService,
    NoAlias(String),
}

/// Why there is no connection.
pub open spec fn connect_failure_text(failure: ConnectFailure) -> Seq<char> {
    match failure {
        ConnectFailure::NoBus => "there is no session bus"@,
        ConnectFailure::NotAddressed(e) => "the secret service could not be addressed ("@ + e@
            + ")"@,
        ConnectFailure::NoService => "there is no secret service on the session bus"@,
        ConnectFailure::NoAlias(e) => "the secret service has no default collection ("@ + e@
            + ")"@,
    }
}

/// A sentence about something, with the bus's own words in brackets.
pub fn with_reason(what: &str, e: &str) -> (said: String)
    ensures
        said@ == what@ + " ("@ + e@ + ")"@,
{
    let mut said = what.to_owned();
    said.append(" (");
    said.append(e);
    said.append(")");
    said
}

/// Why there is no connection.
pub fn connect_failed(failure: ConnectFailure) -> (why: String)
    ensures
        why@ == connect_failure_text(failure),
{
    match failure {
        ConnectFailure::NoBus => "there is no session bus".to_owned(),
        ConnectFailure::NotAddressed(e) => {
            let mut why = "the secret service could not be addressed (".to_owned();
            why.append(e.as_str());
            why.append(")");
            why
        },
        ConnectFailure::NoService => "there is no secret service on the session bus".to_owned(),
        ConnectFailure::NoAlias(e) => {
            let mut why = "the secret service has no default collection (".to_owned();
            why.append(e.as_str());
            why.append(")");
            why
        },
    }
}

/// The collection the default alias names. The path `/` stands for none.
pub fn default_collection(alias: String) -> (collection: Result<String, String>)
    ensures
        match collection {
            Ok(path) => alias@ != "/"@ && path@ == alias@,
            Err(why) => alias@ == "/"@ && why@ == "the secret service has no default collection"@,
        },
{
    if same_text(alias.as_str(), "/") {
        Err("the secret service has no default collection".to_owned())
    } else {
        Ok(alias)
    }
}

/// What a locked keyring is reported as.
pub const LOCKED: &'static str = "the desktop keyring is locked, and unlocking it is not something a game launcher should demand before it will start";

/// Whether the collection may be used, given what it says of being locked. It
/// is never asked to unlock: that would prompt somebody who asked to play.
pub fn opened(locked: Result<bool, String>) -> (open: Result<(), String>)
    ensures
        match open {
            Ok(_) => locked == Ok::<bool, String>(false),
            Err(why) => match locked {
                Ok(locked) => locked && why@ == LOCKED@,
                Err(e) => why@ == "the keyring would not say whether it is locked"@ + " ("@ + e@
                    + ")"@,
            },
        },
{
    match locked {
        Ok(false) => Ok(()),
        Ok(true) => Err(LOCKED.to_owned()),
        Err(e) => Err(with_reason("the keyring would not say whether it is locked", e.as_str())),
    }
}

/// Which of the items a search found is read: the first that is not locked.
pub fn item_to_read(unlocked: &Vec<String>) -> (item: Option<&String>)
    ensures
        match item {
            Some(item) => unlocked@.len() > 0 && item@ == unlocked@[0]@,
            None => unlocked@.len() == 0,
        },
{
    if unlocked.len() == 0 {
        None
    } else {
        Some(&unlocked[0])
    }
}

/// What the bytes of an item are: text, or an error that does not carry them,
/// because an error is the one place a value reliably reaches a log.
pub fn secret_text(value: Vec<u8>) -> (answer: Answer)
    ensures
        answer_view(answer) == (if valid_utf8(value@) {
            Ok::<Option<Seq<char>>, Seq<char>>(Some(decode_utf8(value@)))
        } else {
            Err("the stored session is not text"@)
        }),
{
    match text_of_bytes(value.as_slice()) {
        Some(text) => Ok(Some(text)),
        None => Err("the stored session is not text".to_owned()),
    }
}

/// Whether storing is done, given the prompt the service names. The path `/`
/// stands for none.
pub fn stored(prompt: &str) -> (done: Result<(), String>)
    ensures
        match done {
            Ok(_) => prompt@ == "/"@,
            Err(why) => prompt@ != "/"@ && why@
                == "storing the session would have needed a prompt"@,
        },
{
    if same_text(prompt, "/") {
        Ok(())
    } else {
        Err("storing the session would have needed a prompt".to_owned())
    }
}

/// Bytes are encoded one by one, each as its two hexadecimal digits, the higher
/// one first.
pub proof fn law_bytes_are_encoded_one_by_one(bytes: Seq<u8>, byte: u8)
    ensures
        hex_of(Seq::<u8>::empty()) == Seq::<char>::empty(),
        hex_of(bytes.push(byte)) == hex_of(bytes) + seq![
            text::hex_char(byte as int / 16),
            text::hex_char(byte as int % 16),
        ],
{
    assert(hex_of(Seq::<u8>::empty()) =~= Seq::<char>::empty());
    let more = bytes.push(byte);
    assert forall|i: int| 0 <= i < 2 * more.len() implies hex_of(more)[i] == (hex_of(bytes) + seq![
        text::hex_char(byte as int / 16),
        text::hex_char(byte as int % 16),
    ])[i] by {
        if i < 2 * bytes.len() {
            assert(more[i / 2] == bytes[i / 2]);
        }
    }
    assert(hex_of(more) =~= hex_of(bytes) + seq![
        text::hex_char(byte as int / 16),
        text::hex_char(byte as int % 16),
    ]);
}

/// A digit is read by its code, a letter in either case.
pub proof fn law_a_digit_is_read_by_its_code(c: char)
    ensures
        0x30 <= c as int <= 0x39 ==> digit_value(c) == Some(c as int - 0x30),
        0x61 <= c as int <= 0x66 ==> digit_value(c) == Some(c as int - 0x61 + 10),
        0x41 <= c as int <= 0x46 ==> digit_value(c) == Some(c as int - 0x41 + 10),
        !(0x30 <= c as int <= 0x39) && !(0x61 <= c as int <= 0x66) && !(0x41 <= c as int <= 0x46)
            ==> digit_value(c) is None,
{
}

/// Digits are read two by two, and one alone or anything else spoils them.
pub proof fn law_digits_are_read_two_by_two(hex: Seq<char>, high: char, low: char)
    ensures
        bytes_of_hex(Seq::<char>::empty()) == Some(Seq::<u8>::empty()),
        bytes_of_hex(hex) is Some && digit_value(high) is Some && digit_value(low) is Some
            ==> bytes_of_hex(hex + seq![high, low]) == Some(
            bytes_of_hex(hex)->0.push((digit_value(high)->0 * 16 + digit_value(low)->0) as u8),
        ),
        digit_value(high) is None || digit_value(low) is None ==> bytes_of_hex(
            hex + seq![high, low],
        ) is None,
        bytes_of_hex(hex) is Some ==> bytes_of_hex(hex.push(high)) is None,
{
    assert(bytes_of_hex(Seq::<char>::empty())->0 =~= Seq::<u8>::empty());
    let more = hex + seq![high, low];
    if bytes_of_hex(hex) is Some && digit_value(high) is Some && digit_value(low) is Some {
        assert forall|i: int| 0 <= i < more.len() implies digit_value(#[trigger] more[i]) is Some by {
            if i < hex.len() {
                assert(more[i] == hex[i]);
            }
        }
        assert(bytes_of_hex(more)->0 =~= bytes_of_hex(hex)->0.push(
            (digit_value(high)->0 * 16 + digit_value(low)->0) as u8,
        ));
    }
    if digit_value(high) is None || digit_value(low) is None {
        assert(more[hex.len() as int] == high);
        assert(more[hex.len() as int + 1] == low);
    }
}

/// What the service hands back is decoded only where it says that it is encoded;
/// anything else is handed on as it is, and an encoding that is broken is told.
pub proof fn law_only_what_is_encoded_is_decoded(stored: Seq<char>, why: Seq<char>)
    ensures
        !text::begins_with(stored, "cordial-secret-hex-v1:"@) ==> read_out(Ok(Some(stored)))
            == Ok::<Option<Seq<char>>, Seq<char>>(Some(stored)),
        bytes_of_hex(stored) is None ==> read_out(
            Ok(Some("cordial-secret-hex-v1:"@ + stored)),
        ) == Err::<Option<Seq<char>>, Seq<char>>("the stored session has an invalid encoding"@),
        bytes_of_hex(stored) is Some && !valid_utf8(bytes_of_hex(stored)->0) ==> read_out(
            Ok(Some("cordial-secret-hex-v1:"@ + stored)),
        ) == Err::<Option<Seq<char>>, Seq<char>>("the stored session has an invalid encoding"@),
        bytes_of_hex(stored) is Some && valid_utf8(bytes_of_hex(stored)->0) ==> read_out(
            Ok(Some("cordial-secret-hex-v1:"@ + stored)),
        ) == Ok::<Option<Seq<char>>, Seq<char>>(Some(decode_utf8(bytes_of_hex(stored)->0))),
        read_out(Ok(None)) == Ok::<Option<Seq<char>>, Seq<char>>(None),
        read_out(Err(why)) == Err::<Option<Seq<char>>, Seq<char>>(why),
{
    let prefix = "cordial-secret-hex-v1:"@;
    text::law_a_text_begins_and_ends_with_its_parts(stored, prefix);
    assert((prefix + stored).skip(prefix.len() as int) =~= stored);
}

/// What is said where the service cannot be used, and what it goes by.
pub proof fn law_what_is_said_of_the_service(e: String)
    ensures
        connect_failure_text(ConnectFailure::NoBus) == "there is no session bus"@,
        connect_failure_text(ConnectFailure::NotAddressed(e))
            == "the secret service could not be addressed ("@ + e@ + ")"@,
        connect_failure_text(ConnectFailure::NoService)
            == "there is no secret service on the session bus"@,
        connect_failure_text(ConnectFailure::NoAlias(e))
            == "the secret service has no default collection ("@ + e@ + ")"@,
        SERVICE@ == "org.freedesktop.secrets"@,
        SERVICE_PATH@ == "/org/freedesktop/secrets"@,
        IFACE_SERVICE@ == "org.freedesktop.Secret.Service"@,
        IFACE_COLLECTION@ == "org.freedesktop.Secret.Collection"@,
        IFACE_ITEM@ == "org.freedesktop.Secret.Item"@,
        CONTENT_TYPE@ == "text/plain; charset=utf8"@,
        PROBE_TIMEOUT == 2,
        CALL_TIMEOUT == 5,
{
}

} // verus!
