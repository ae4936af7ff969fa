//! Which feed bodies feed_rs can be handed without risk of a panic.
//!
//! feed_rs panics in two places on text that a feed may hold:
//! - reading a play time (the text of an element named `duration`, such as
//!   `<itunes:duration>`, or a `start`, `end` or `time` attribute of a
//!   MediaRSS element), where a run of digits does not fit in a `u64`, its
//!   hours overflow when turned into seconds, or a digit is not an ASCII one;
//! - reading a person (an RSS `author`, `managingEditor`, `webMaster`,
//!   `dc:creator`, `itunes:author` or owner name, or a JSON Feed author),
//!   where the character right before or after an e-mail address is not an
//!   ASCII one.
//!
//! The scan below finds, in the bytes, every place where such text can stand
//! and checks it. It reads markup byte by byte, which holds for UTF-8 and the
//! other ASCII-compatible encodings; a body with a zero byte (UTF-16) or an
//! ESC byte (ISO-2022-JP) is not read and is taken as risky.
use vstd::prelude::*;

verus! {

/// Where a scan of element text stands: in text, or inside a comment, a
/// CDATA section or a processing instruction.
#[derive(Clone, Copy, PartialEq, Eq, Structural)]
pub enum TextState {
    Text,
    Comment,
    Cdata,
    Pi,
}

/// The longest run of digits that a play time may hold.
pub const MAX_DIGITS: u64 = 15;

pub open spec fn is_digit(c: u8) -> bool {
    48 <= c <= 57
}

pub open spec fn is_letter(c: u8) -> bool {
    (65 <= c <= 90) || (97 <= c <= 122)
}

pub open spec fn is_ws(c: u8) -> bool {
    c == 32 || c == 9 || c == 10 || c == 13
}

/// A byte that may continue an XML name.
pub open spec fn name_char(c: u8) -> bool {
    is_letter(c) || is_digit(c) || c == 45 || c == 95 || c == 46 || c == 58
}

/// A byte of the local part of an address, as feed_rs matches it.
pub open spec fn local_char(c: u8) -> bool {
    is_letter(c) || is_digit(c) || c == 46 || c == 95 || c == 37 || c == 43 || c == 45
}

/// A byte of the domain of an address, as feed_rs matches it.
pub open spec fn domain_char(c: u8) -> bool {
    is_letter(c) || is_digit(c) || c == 46 || c == 45
}

/// `p` stands in `b` at position `i`.
pub open spec fn at(b: Seq<u8>, i: int, p: Seq<u8>) -> bool {
    &&& 0 <= i
    &&& i + p.len() <= b.len()
    &&& forall|j: int| 0 <= j < p.len() ==> b[i + j] == p[j]
}

pub open spec fn comment_open() -> Seq<u8> { seq![60u8, 33u8, 45u8, 45u8] }
pub open spec fn comment_close() -> Seq<u8> { seq![45u8, 45u8, 62u8] }
pub open spec fn cdata_open() -> Seq<u8> { seq![60u8, 33u8, 91u8, 67u8, 68u8, 65u8, 84u8, 65u8, 91u8] }
pub open spec fn cdata_close() -> Seq<u8> { seq![93u8, 93u8, 62u8] }
pub open spec fn pi_open() -> Seq<u8> { seq![60u8, 63u8] }
pub open spec fn bang() -> Seq<u8> { seq![60u8, 33u8] }
pub open spec fn pi_close() -> Seq<u8> { seq![63u8, 62u8] }
pub open spec fn char_ref() -> Seq<u8> { seq![38u8, 35u8] }
pub open spec fn word_duration() -> Seq<u8> { seq![100u8, 117u8, 114u8, 97u8, 116u8, 105u8, 111u8, 110u8] }
pub open spec fn word_start() -> Seq<u8> { seq![115u8, 116u8, 97u8, 114u8, 116u8] }
pub open spec fn word_end() -> Seq<u8> { seq![101u8, 110u8, 100u8] }
pub open spec fn word_time() -> Seq<u8> { seq![116u8, 105u8, 109u8, 101u8] }
pub open spec fn word_mailto() -> Seq<u8> { seq![109u8, 97u8, 105u8, 108u8, 116u8, 111u8, 58u8] }
pub open spec fn open_delims() -> Seq<u8> { seq![60u8, 91u8, 40u8] }
pub open spec fn open_delims_tail() -> Seq<u8> { seq![91u8, 40u8] }
pub open spec fn close_delims() -> Seq<u8> { seq![62u8, 93u8, 41u8] }
pub open spec fn json_at_sign() -> Seq<u8> { seq![92u8, 117u8, 48u8, 48u8, 52u8, 48u8] }
pub open spec fn dec_64() -> Seq<u8> { seq![54u8, 52u8, 59u8] }
pub open spec fn hex_40() -> Seq<u8> { seq![52u8, 48u8, 59u8] }

// ---------------------------------------------------------------------------
// Play times in element text.

/// The end of the name that starts at `k`: the first white space, `/` or `>`.
pub open spec fn name_end(b: Seq<u8>, k: int) -> int
    decreases b.len() - k,
{
    if k < 0 || k >= b.len() || is_ws(b[k]) || b[k] == 47 || b[k] == 62 {
        k
    } else {
        name_end(b, k + 1)
    }
}

/// The `>` that closes the tag from `k` on (quoted `>` not counted), or the
/// end of the body; `q` is the quote being read, 0 outside quotes.
pub open spec fn tag_close(b: Seq<u8>, k: int, q: u8) -> int
    decreases b.len() - k,
{
    if k < 0 || k >= b.len() {
        b.len() as int
    } else if q == 0 {
        if b[k] == 62 {
            k
        } else if b[k] == 34 || b[k] == 39 {
            tag_close(b, k + 1, b[k])
        } else {
            tag_close(b, k + 1, 0)
        }
    } else if b[k] == q {
        tag_close(b, k + 1, 0)
    } else {
        tag_close(b, k + 1, q)
    }
}

/// A start tag opens at `i` whose name's local part is `duration`.
pub open spec fn duration_open_at(b: Seq<u8>, i: int) -> bool {
    let e = name_end(b, i + 1);
    &&& 0 <= i < b.len()
    &&& b[i] == 60
    &&& e - 8 >= i + 1
    &&& at(b, e - 8, word_duration())
    &&& (e - 8 == i + 1 || b[e - 9] == 58)
}

/// Reading element text from `k` in state `st` with `run` digits seen
/// without a break, before the next tag: a byte that is not ASCII, a numeric
/// character reference, or more than fifteen digits in a run. Comments,
/// processing instructions and the CDATA brackets do not break a run (feed_rs
/// joins the text around them). Inside a comment or processing instruction
/// the bytes are still checked and their digits counted, without a break, so
/// that the scan errs the safe way wherever its idea of where such a part
/// ends differs from the XML reader's; other markup opened by `<!` is taken
/// as risky.
pub open spec fn text_risk(b: Seq<u8>, k: int, st: TextState, run: nat) -> bool
    decreases b.len() - k,
{
    if run > MAX_DIGITS {
        true
    } else if k < 0 || k >= b.len() {
        false
    } else {
        match st {
            TextState::Text => if is_digit(b[k]) {
                text_risk(b, k + 1, TextState::Text, run + 1)
            } else if at(b, k, comment_open()) {
                text_risk(b, k + 4, TextState::Comment, run)
            } else if at(b, k, cdata_open()) {
                text_risk(b, k + 9, TextState::Cdata, run)
            } else if at(b, k, bang()) {
                true
            } else if at(b, k, pi_open()) {
                text_risk(b, k + 2, TextState::Pi, run)
            } else if b[k] == 60 {
                false
            } else if b[k] >= 128 || at(b, k, char_ref()) {
                true
            } else {
                text_risk(b, k + 1, TextState::Text, 0)
            },
            TextState::Comment => if at(b, k, comment_close()) {
                text_risk(b, k + 3, TextState::Text, run)
            } else if b[k] >= 128 || at(b, k, char_ref()) {
                true
            } else if is_digit(b[k]) {
                text_risk(b, k + 1, TextState::Comment, run + 1)
            } else {
                text_risk(b, k + 1, TextState::Comment, run)
            },
            TextState::Cdata => if at(b, k, cdata_close()) {
                text_risk(b, k + 3, TextState::Text, run)
            } else if is_digit(b[k]) {
                text_risk(b, k + 1, TextState::Cdata, run + 1)
            } else if b[k] >= 128 {
                true
            } else {
                text_risk(b, k + 1, TextState::Cdata, 0)
            },
            TextState::Pi => if at(b, k, pi_close()) {
                text_risk(b, k + 2, TextState::Text, run)
            } else if b[k] >= 128 || at(b, k, char_ref()) {
                true
            } else if is_digit(b[k]) {
                text_risk(b, k + 1, TextState::Pi, run + 1)
            } else {
                text_risk(b, k + 1, TextState::Pi, run)
            },
        }
    }
}

/// A `duration` element opens at `i` and its text is risky.
pub open spec fn duration_risk_at(b: Seq<u8>, i: int) -> bool {
    &&& duration_open_at(b, i)
    &&& text_risk(b, tag_close(b, name_end(b, i + 1), 0) + 1, TextState::Text, 0)
}

// ---------------------------------------------------------------------------
// Play times in attributes.

pub open spec fn skip_ws(b: Seq<u8>, k: int) -> int
    decreases b.len() - k,
{
    if 0 <= k < b.len() && is_ws(b[k]) {
        skip_ws(b, k + 1)
    } else {
        k
    }
}

/// Attribute `w` starts at `p`: the word stands there as a whole name,
/// followed by `=` and an opening quote, which stands at the result.
pub open spec fn attr_quote(b: Seq<u8>, p: int, w: Seq<u8>) -> Option<int> {
    let e = skip_ws(b, p + w.len());
    let q = skip_ws(b, e + 1);
    if at(b, p, w) && (p == 0 || !name_char(b[p - 1])) && 0 <= e < b.len() && b[e] == 61
        && 0 <= q < b.len() && (b[q] == 34 || b[q] == 39) {
        Some(q)
    } else {
        None
    }
}

/// Reading an attribute value from `k` up to the quote `quote`: a byte that
/// is not ASCII, a numeric character reference, or more than fifteen digits
/// in a run.
pub open spec fn value_risk(b: Seq<u8>, k: int, quote: u8, run: nat) -> bool
    decreases b.len() - k,
{
    if run > MAX_DIGITS {
        true
    } else if k < 0 || k >= b.len() || b[k] == quote {
        false
    } else if b[k] >= 128 || at(b, k, char_ref()) {
        true
    } else if is_digit(b[k]) {
        value_risk(b, k + 1, quote, run + 1)
    } else {
        value_risk(b, k + 1, quote, 0)
    }
}

pub open spec fn attr_risk(b: Seq<u8>, p: int, w: Seq<u8>) -> bool {
    attr_quote(b, p, w) matches Some(q) && value_risk(b, q + 1, b[q], 0)
}

// ---------------------------------------------------------------------------
// Addresses.

/// The start of the run of local-part bytes that ends right before `k`.
pub open spec fn local_start(b: Seq<u8>, k: int) -> int
    decreases k,
{
    if 0 < k <= b.len() && local_char(b[k - 1]) {
        local_start(b, k - 1)
    } else {
        k
    }
}

/// The end of the run of domain bytes that starts at `k`.
pub open spec fn domain_end(b: Seq<u8>, k: int) -> int
    decreases b.len() - k,
{
    if 0 <= k < b.len() && domain_char(b[k]) {
        domain_end(b, k + 1)
    } else {
        k
    }
}

pub open spec fn hexish(c: u8) -> bool {
    is_digit(c) || (65 <= c <= 70) || (97 <= c <= 102) || c == 120 || c == 88
}

/// The start of the run of hexadecimal digits (and `x`) that ends right
/// before `k`.
pub open spec fn hex_start(b: Seq<u8>, k: int) -> int
    decreases k,
{
    if 0 < k <= b.len() && hexish(b[k - 1]) {
        hex_start(b, k - 1)
    } else {
        k
    }
}

/// The `;` at `k` ends a numeric character reference.
pub open spec fn char_ref_ends(b: Seq<u8>, k: int) -> bool {
    0 <= k < b.len() && b[k] == 59 && at(b, hex_start(b, k) - 2, char_ref())
}

/// What stands right before `c` may read as a character that is not ASCII:
/// a byte that is not ASCII (one or two back, for two-byte encodings), an
/// escape, the end of a numeric character reference, or the end of a
/// comment, CDATA section or processing instruction around which the text is
/// joined.
pub open spec fn risky_before(b: Seq<u8>, c: int) -> bool {
    ||| 1 <= c <= b.len() && (b[c - 1] >= 128 || b[c - 1] == 92 || b[c - 1] == 91)
    ||| 1 <= c <= b.len() && char_ref_ends(b, c - 1)
    ||| 2 <= c <= b.len() && b[c - 2] >= 128
    ||| 2 <= c <= b.len() && b[c - 1] == 62 && (b[c - 2] == 45 || b[c - 2] == 93 || b[c - 2] == 63
        || b[c - 2] == 34 || b[c - 2] == 39 || is_ws(b[c - 2]))
    ||| 1 <= c <= b.len() && b[c - 1] == 62 && bang_before(b, c - 1)
}

/// The position of the last `<` before `k`, or -1.
pub open spec fn last_lt(b: Seq<u8>, k: int) -> int
    decreases k,
{
    if k <= 0 || k > b.len() {
        -1
    } else if b[k - 1] == 60 {
        k - 1
    } else {
        last_lt(b, k - 1)
    }
}

/// The last `<` before `k` opens a declaration or processing instruction.
pub open spec fn bang_before(b: Seq<u8>, k: int) -> bool {
    let p = last_lt(b, k);
    0 <= p && p + 1 < b.len() && (b[p + 1] == 33 || b[p + 1] == 63)
}

/// What stands at `e` may read as a character that is not ASCII: a byte that
/// is not ASCII, an escape, a numeric character reference, or the start or
/// end of a comment, CDATA section or processing instruction around which
/// the text is joined.
pub open spec fn risky_after(b: Seq<u8>, e: int) -> bool {
    &&& 0 <= e < b.len()
    &&& {
        ||| b[e] >= 128 || b[e] == 92 || b[e] == 93
        ||| at(b, e, char_ref())
        ||| b[e] == 60 && e + 1 < b.len() && (b[e + 1] == 33 || b[e + 1] == 63)
    }
}

/// A match may start at `x`, or at the `<[(` before it.
pub open spec fn start_risky(b: Seq<u8>, x: int) -> bool {
    ||| risky_before(b, x)
    ||| at(b, x - 3, open_delims()) && risky_before(b, x - 3)
    ||| at(b, x - 2, open_delims_tail()) && risky_before(b, x - 2)
}

/// An `@` at `j` whose address may touch a character that is not ASCII.
pub open spec fn address_risk_at(b: Seq<u8>, j: int) -> bool {
    let r = local_start(b, j);
    let i = domain_end(b, j + 1);
    &&& 0 <= j < b.len()
    &&& b[j] == 64
    &&& {
        ||| start_risky(b, r)
        ||| at(b, r - 7, word_mailto()) && start_risky(b, r - 7)
        ||| risky_after(b, i)
        ||| at(b, i, close_delims()) && risky_after(b, i + 3)
    }
}

pub open spec fn skip_zeros(b: Seq<u8>, k: int) -> int
    decreases b.len() - k,
{
    if 0 <= k < b.len() && b[k] == 48 {
        skip_zeros(b, k + 1)
    } else {
        k
    }
}

/// A character reference at `k` for `@`: `&#64;` or `&#x40;`, with any
/// leading zeros.
pub open spec fn at_sign_ref(b: Seq<u8>, k: int) -> bool {
    &&& at(b, k, char_ref())
    &&& if k + 2 < b.len() && (b[k + 2] == 120 || b[k + 2] == 88) {
        at(b, skip_zeros(b, k + 3), hex_40())
    } else {
        at(b, skip_zeros(b, k + 2), dec_64())
    }
}

// ---------------------------------------------------------------------------
// The whole body.

/// Something at position `k` may make feed_rs panic.
pub open spec fn risk_at(b: Seq<u8>, k: int) -> bool {
    ||| b[k] == 0 || b[k] == 27
    ||| duration_risk_at(b, k)
    ||| attr_risk(b, k, word_start())
    ||| attr_risk(b, k, word_end())
    ||| attr_risk(b, k, word_time())
    ||| address_risk_at(b, k)
    ||| at_sign_ref(b, k)
    ||| at(b, k, json_at_sign())
}

/// The body may make feed_rs panic while reading a play time or a person.
pub open spec fn panic_risk(b: Seq<u8>) -> bool {
    exists|k: int| 0 <= k < b.len() && risk_at(b, k)
}

// ---------------------------------------------------------------------------
// The scan.

fn at_exec(b: &[u8], i: usize, p: &[u8]) -> (r: bool)
    ensures
        r == at(b@, i as int, p@),
{
    if p.len() > b.len() || i > b.len() - p.len() {
        return false;
    }
    let mut j: usize = 0;
    while j < p.len()
        invariant
            j <= p.len(),
            i + p.len() <= b.len(),
            forall|k: int| 0 <= k < j ==> b@[i + k] == p@[k],
        decreases p.len() - j,
    {
        if b[i + j] != p[j] {
            return false;
        }
        j = j + 1;
    }
    true
}

fn at_pat(b: &[u8], i: usize, p: Vec<u8>, Ghost(s): Ghost<Seq<u8>>) -> (r: bool)
    requires
        p@ == s,
    ensures
        r == at(b@, i as int, s),
{
    at_exec(b, i, p.as_slice())
}

fn name_end_exec(b: &[u8], k: usize) -> (r: usize)
    requires
        k <= b.len(),
    ensures
        r == name_end(b@, k as int),
        k <= r <= b.len(),
{
    let mut i = k;
    while i < b.len() && !(b[i] == 32 || b[i] == 9 || b[i] == 10 || b[i] == 13 || b[i] == 47 || b[i] == 62)
        invariant
            k <= i <= b.len(),
            name_end(b@, k as int) == name_end(b@, i as int),
        decreases b.len() - i,
    {
        i = i + 1;
    }
    i
}

fn tag_close_exec(b: &[u8], k: usize) -> (r: usize)
    requires
        k <= b.len(),
    ensures
        r == tag_close(b@, k as int, 0),
        r <= b.len(),
{
    let mut i = k;
    let mut q: u8 = 0;
    while i < b.len()
        invariant
            k <= i <= b.len(),
            tag_close(b@, k as int, 0) == tag_close(b@, i as int, q),
        decreases b.len() - i,
    {
        let c = b[i];
        if q == 0 {
            if c == 62 {
                return i;
            } else if c == 34 || c == 39 {
                q = c;
            }
        } else if c == q {
            q = 0;
        }
        i = i + 1;
    }
    b.len()
}

fn text_risk_exec(b: &[u8], k: usize) -> (r: bool)
    ensures
        r == text_risk(b@, k as int, TextState::Text, 0),
{
    let mut i = k;
    let mut st = TextState::Text;
    let mut run: u64 = 0;
    while i < b.len()
        invariant
            run <= MAX_DIGITS,
            text_risk(b@, k as int, TextState::Text, 0) == text_risk(b@, i as int, st, run as nat),
        decreases b.len() - i,
    {
        let c = b[i];
        let digit = 48 <= c && c <= 57;
        match st {
            TextState::Text => {
                if digit {
                    i = i + 1;
                    run = run + 1;
                } else if at_pat(b, i, vec![60u8, 33u8, 45u8, 45u8], Ghost(comment_open())) {
                    i = i + 4;
                    st = TextState::Comment;
                } else if at_pat(b, i, vec![60u8, 33u8, 91u8, 67u8, 68u8, 65u8, 84u8, 65u8, 91u8], Ghost(cdata_open())) {
                    i = i + 9;
                    st = TextState::Cdata;
                } else if at_pat(b, i, vec![60u8, 33u8], Ghost(bang())) {
                    return true;
                } else if at_pat(b, i, vec![60u8, 63u8], Ghost(pi_open())) {
                    i = i + 2;
                    st = TextState::Pi;
                } else if c == 60 {
                    return false;
                } else if c >= 128 || at_pat(b, i, vec![38u8, 35u8], Ghost(char_ref())) {
                    return true;
                } else {
                    i = i + 1;
                    run = 0;
                }
            },
            TextState::Comment => {
                if at_pat(b, i, vec![45u8, 45u8, 62u8], Ghost(comment_close())) {
                    i = i + 3;
                    st = TextState::Text;
                } else if c >= 128 || at_pat(b, i, vec![38u8, 35u8], Ghost(char_ref())) {
                    return true;
                } else {
                    if digit {
                        run = run + 1;
                    }
                    i = i + 1;
                }
            },
            TextState::Cdata => {
                if at_pat(b, i, vec![93u8, 93u8, 62u8], Ghost(cdata_close())) {
                    i = i + 3;
                    st = TextState::Text;
                } else if digit {
                    i = i + 1;
                    run = run + 1;
                } else if c >= 128 {
                    return true;
                } else {
                    i = i + 1;
                    run = 0;
                }
            },
            TextState::Pi => {
                if at_pat(b, i, vec![63u8, 62u8], Ghost(pi_close())) {
                    i = i + 2;
                    st = TextState::Text;
                } else if c >= 128 || at_pat(b, i, vec![38u8, 35u8], Ghost(char_ref())) {
                    return true;
                } else {
                    if digit {
                        run = run + 1;
                    }
                    i = i + 1;
                }
            },
        }
        if run > MAX_DIGITS {
            assert(text_risk(b@, i as int, st, run as nat));
            return true;
        }
    }
    false
}

fn duration_risk_exec(b: &[u8], i: usize) -> (r: bool)
    requires
        i < b.len(),
    ensures
        r == duration_risk_at(b@, i as int),
{
    if b[i] != 60 {
        return false;
    }
    let e = name_end_exec(b, i + 1);
    if e - i < 9 {
        return false;
    }
    if !at_pat(b, e - 8, vec![100u8, 117u8, 114u8, 97u8, 116u8, 105u8, 111u8, 110u8], Ghost(word_duration())) {
        return false;
    }
    if !(e - 8 == i + 1 || b[e - 9] == 58) {
        return false;
    }
    let c = tag_close_exec(b, e);
    if c >= b.len() {
        return false;
    }
    text_risk_exec(b, c + 1)
}

fn skip_ws_exec(b: &[u8], k: usize) -> (r: usize)
    requires
        k <= b.len(),
    ensures
        r == skip_ws(b@, k as int),
        k <= r <= b.len(),
{
    let mut i = k;
    while i < b.len() && (b[i] == 32 || b[i] == 9 || b[i] == 10 || b[i] == 13)
        invariant
            k <= i <= b.len(),
            skip_ws(b@, k as int) == skip_ws(b@, i as int),
        decreases b.len() - i,
    {
        i = i + 1;
    }
    i
}

fn value_risk_exec(b: &[u8], k: usize, quote: u8) -> (r: bool)
    ensures
        r == value_risk(b@, k as int, quote, 0),
{
    let mut i = k;
    let mut run: u64 = 0;
    while i < b.len()
        invariant
            run <= MAX_DIGITS,
            value_risk(b@, k as int, quote, 0) == value_risk(b@, i as int, quote, run as nat),
        decreases b.len() - i,
    {
        let c = b[i];
        if c == quote {
            return false;
        }
        if c >= 128 || at_pat(b, i, vec![38u8, 35u8], Ghost(char_ref())) {
            return true;
        }
        if 48 <= c && c <= 57 {
            run = run + 1;
        } else {
            run = 0;
        }
        i = i + 1;
        if run > MAX_DIGITS {
            assert(value_risk(b@, i as int, quote, run as nat));
            return true;
        }
    }
    false
}

fn attr_risk_exec(b: &[u8], p: usize, w: Vec<u8>, Ghost(s): Ghost<Seq<u8>>) -> (r: bool)
    requires
        p < b.len(),
        w@ == s,
    ensures
        r == attr_risk(b@, p as int, s),
{
    let n = w.len();
    if !at_exec(b, p, w.as_slice()) {
        return false;
    }
    if p > 0 {
        let c = b[p - 1];
        if (65 <= c && c <= 90) || (97 <= c && c <= 122) || (48 <= c && c <= 57) || c == 45 || c == 95 || c == 46 || c == 58 {
            return false;
        }
    }
    let e = skip_ws_exec(b, p + n);
    if e >= b.len() || b[e] != 61 {
        return false;
    }
    let q = skip_ws_exec(b, e + 1);
    if q >= b.len() || !(b[q] == 34 || b[q] == 39) {
        return false;
    }
    value_risk_exec(b, q + 1, b[q])
}

fn local_char_exec(c: u8) -> (r: bool)
    ensures
        r == local_char(c),
{
    (65 <= c && c <= 90) || (97 <= c && c <= 122) || (48 <= c && c <= 57) || c == 46 || c == 95 || c == 37 || c == 43 || c == 45
}

fn domain_char_exec(c: u8) -> (r: bool)
    ensures
        r == domain_char(c),
{
    (65 <= c && c <= 90) || (97 <= c && c <= 122) || (48 <= c && c <= 57) || c == 46 || c == 45
}

fn local_start_exec(b: &[u8], k: usize) -> (r: usize)
    requires
        k <= b.len(),
    ensures
        r == local_start(b@, k as int),
        r <= k,
{
    let mut i = k;
    while i > 0 && local_char_exec(b[i - 1])
        invariant
            i <= k <= b.len(),
            local_start(b@, k as int) == local_start(b@, i as int),
        decreases i,
    {
        i = i - 1;
    }
    i
}

fn domain_end_exec(b: &[u8], k: usize) -> (r: usize)
    requires
        k <= b.len(),
    ensures
        r == domain_end(b@, k as int),
        k <= r <= b.len(),
{
    let mut i = k;
    while i < b.len() && domain_char_exec(b[i])
        invariant
            k <= i <= b.len(),
            domain_end(b@, k as int) == domain_end(b@, i as int),
        decreases b.len() - i,
    {
        i = i + 1;
    }
    i
}

fn hex_start_exec(b: &[u8], k: usize) -> (r: usize)
    requires
        k <= b.len(),
    ensures
        r == hex_start(b@, k as int),
        r <= k,
{
    let mut i = k;
    while i > 0 && hexish_exec(b[i - 1])
        invariant
            i <= k <= b.len(),
            hex_start(b@, k as int) == hex_start(b@, i as int),
        decreases i,
    {
        i = i - 1;
    }
    i
}

fn hexish_exec(c: u8) -> (r: bool)
    ensures
        r == hexish(c),
{
    (48 <= c && c <= 57) || (65 <= c && c <= 70) || (97 <= c && c <= 102) || c == 120 || c == 88
}

fn char_ref_ends_exec(b: &[u8], k: usize) -> (r: bool)
    requires
        k < b.len(),
    ensures
        r == char_ref_ends(b@, k as int),
{
    if b[k] != 59 {
        return false;
    }
    let h = hex_start_exec(b, k);
    h >= 2 && at_pat(b, h - 2, vec![38u8, 35u8], Ghost(char_ref()))
}

fn risky_before_exec(b: &[u8], c: usize) -> (r: bool)
    requires
        c <= b.len(),
    ensures
        r == risky_before(b@, c as int),
{
    if c >= 1 {
        let x = b[c - 1];
        if x >= 128 || x == 92 || x == 91 || char_ref_ends_exec(b, c - 1) {
            return true;
        }
    }
    if c >= 2 {
        let y = b[c - 2];
        if y >= 128 {
            return true;
        }
        if b[c - 1] == 62 && (y == 45 || y == 93 || y == 63 || y == 34 || y == 39 || y == 32 || y == 9 || y == 10 || y == 13) {
            return true;
        }
    }
    if c >= 1 && b[c - 1] == 62 {
        match last_lt_exec(b, c - 1) {
            Some(q) => {
                if q + 1 < b.len() && (b[q + 1] == 33 || b[q + 1] == 63) {
                    return true;
                }
            },
            None => {},
        }
    }
    false
}

fn last_lt_exec(b: &[u8], k: usize) -> (r: Option<usize>)
    requires
        k <= b.len(),
    ensures
        match r {
            Some(p) => p == last_lt(b@, k as int) && p < k,
            None => last_lt(b@, k as int) == -1,
        },
{
    let mut i = k;
    while i > 0 && b[i - 1] != 60
        invariant
            i <= k <= b.len(),
            last_lt(b@, k as int) == last_lt(b@, i as int),
        decreases i,
    {
        i = i - 1;
    }
    if i == 0 {
        None
    } else {
        Some(i - 1)
    }
}

fn risky_after_exec(b: &[u8], e: usize) -> (r: bool)
    ensures
        r == risky_after(b@, e as int),
{
    if e >= b.len() {
        return false;
    }
    let x = b[e];
    if x >= 128 || x == 92 || x == 93 || at_pat(b, e, vec![38u8, 35u8], Ghost(char_ref())) {
        return true;
    }
    x == 60 && e + 1 < b.len() && (b[e + 1] == 33 || b[e + 1] == 63)
}

fn start_risky_exec(b: &[u8], x: usize) -> (r: bool)
    requires
        x <= b.len(),
    ensures
        r == start_risky(b@, x as int),
{
    if risky_before_exec(b, x) {
        return true;
    }
    if x >= 3 && at_pat(b, x - 3, vec![60u8, 91u8, 40u8], Ghost(open_delims())) && risky_before_exec(b, x - 3) {
        return true;
    }
    x >= 2 && at_pat(b, x - 2, vec![91u8, 40u8], Ghost(open_delims_tail())) && risky_before_exec(b, x - 2)
}

fn address_risk_exec(b: &[u8], j: usize) -> (r: bool)
    requires
        j < b.len(),
    ensures
        r == address_risk_at(b@, j as int),
{
    if b[j] != 64 {
        return false;
    }
    let r = local_start_exec(b, j);
    let i = domain_end_exec(b, j + 1);
    if start_risky_exec(b, r) {
        return true;
    }
    if r >= 7 && at_pat(b, r - 7, vec![109u8, 97u8, 105u8, 108u8, 116u8, 111u8, 58u8], Ghost(word_mailto()))
        && start_risky_exec(b, r - 7) {
        return true;
    }
    if risky_after_exec(b, i) {
        return true;
    }
    at_pat(b, i, vec![62u8, 93u8, 41u8], Ghost(close_delims())) && risky_after_exec(b, i + 3)
}

fn skip_zeros_exec(b: &[u8], k: usize) -> (r: usize)
    requires
        k <= b.len(),
    ensures
        r == skip_zeros(b@, k as int),
        k <= r <= b.len(),
{
    let mut i = k;
    while i < b.len() && b[i] == 48
        invariant
            k <= i <= b.len(),
            skip_zeros(b@, k as int) == skip_zeros(b@, i as int),
        decreases b.len() - i,
    {
        i = i + 1;
    }
    i
}

fn at_sign_ref_exec(b: &[u8], k: usize) -> (r: bool)
    requires
        k < b.len(),
    ensures
        r == at_sign_ref(b@, k as int),
{
    if !at_pat(b, k, vec![38u8, 35u8], Ghost(char_ref())) {
        return false;
    }
    if k + 2 < b.len() && (b[k + 2] == 120 || b[k + 2] == 88) {
        let z = skip_zeros_exec(b, k + 3);
        at_pat(b, z, vec![52u8, 48u8, 59u8], Ghost(hex_40()))
    } else {
        let z = skip_zeros_exec(b, k + 2);
        at_pat(b, z, vec![54u8, 52u8, 59u8], Ghost(dec_64()))
    }
}

fn risk_at_exec(b: &[u8], k: usize) -> (r: bool)
    requires
        k < b.len(),
    ensures
        r == risk_at(b@, k as int),
{
    b[k] == 0 || b[k] == 27 || duration_risk_exec(b, k)
        || attr_risk_exec(b, k, vec![115u8, 116u8, 97u8, 114u8, 116u8], Ghost(word_start()))
        || attr_risk_exec(b, k, vec![101u8, 110u8, 100u8], Ghost(word_end()))
        || attr_risk_exec(b, k, vec![116u8, 105u8, 109u8, 101u8], Ghost(word_time()))
        || address_risk_exec(b, k) || at_sign_ref_exec(b, k)
        || at_pat(b, k, vec![92u8, 117u8, 48u8, 48u8, 52u8, 48u8], Ghost(json_at_sign()))
}

/// Whether feed_rs may panic reading a play time or a person in `body`;
/// where this answers `false` the body can be parsed.
pub fn panic_risky(body: &[u8]) -> (r: bool)
    ensures
        r == panic_risk(body@),
{
    let mut k: usize = 0;
    while k < body.len()
        invariant
            k <= body.len(),
            forall|i: int| 0 <= i < k ==> !risk_at(body@, i),
        decreases body.len() - k,
    {
        if risk_at_exec(body, k) {
            return true;
        }
        k = k + 1;
    }
    false
}

} // verus!
