//! Meme generation through the external worker: the request URL and the
//! checks made before it is sent, the bookkeeping after a reply, and the
//! meme read from the reply's fields.

use vstd::prelude::*;
use crate::state::history_kept;
use crate::ids::{anonymous_view, UserId};
use crate::memes::{generation_day, only_store_changed, usage_on, DAILY_GENERATION_LIMIT, DAY_NS, MEME_WORKER_URL};
use crate::codec::DayUsage;
use crate::model::{MemeData, PythonMetadata};
use crate::state::Backend;
use crate::text::{all_space, chars_of, decimal, is_space_char, push_char, push_decimal, push_text};

verus! {

/// Whether a character is sent as it is in a query value: ASCII letters and
/// digits and `-`, `_`, `.`, `~`.
pub open spec fn is_unreserved(c: char) -> bool {
    let v = c as u32;
    (65 <= v <= 90) || (97 <= v <= 122) || (48 <= v <= 57) || v == 45 || v == 95 || v == 46 || v == 126
}

/// The upper-case hexadecimal digit of a value below 16.
pub open spec fn hex_digit(d: nat) -> char {
    if d < 10 {
        (48 + d) as char
    } else {
        (55 + d) as char
    }
}

/// How one character is written in a query value: itself when unreserved,
/// `%20` for a space, and otherwise `%` with the two hexadecimal digits of
/// the character's low byte.
pub open spec fn encoded_char(c: char) -> Seq<char> {
    if is_unreserved(c) {
        seq![c]
    } else if c == ' ' {
        seq!['%', '2', '0']
    } else {
        let b = (c as u32) % 256;
        seq!['%', hex_digit((b / 16) as nat), hex_digit((b % 16) as nat)]
    }
}

/// A text written as a query value, character by character.
pub open spec fn url_encoded(s: Seq<char>) -> Seq<char>
    decreases s.len(),
{
    if s.len() == 0 {
        Seq::empty()
    } else {
        url_encoded(s.drop_last()) + encoded_char(s.last())
    }
}

/// Whether `s` begins with `p`.
pub open spec fn starts_with(s: Seq<char>, p: Seq<char>) -> bool {
    p.len() <= s.len() && s.subrange(0, p.len() as int) == p
}

/// Whether the canister may call a URL: HTTPS anywhere, plain HTTP only on
/// the local machine.
pub open spec fn url_allowed(url: Seq<char>) -> bool {
    starts_with(url, "https://"@) || starts_with(url, "http://127.0.0.1"@) || starts_with(url, "http://localhost"@)
}

/// The worker URL that generates a meme for a prompt.
pub open spec fn worker_url(prompt: Seq<char>) -> Seq<char> {
    MEME_WORKER_URL@ + "?prompt="@ + url_encoded(prompt)
}

/// The upper-case hexadecimal digit of a value below 16.
fn hex_char(d: u32) -> (c: char)
    requires
        d < 16,
    ensures
        c == hex_digit(d as nat),
{
    if d < 10 {
        ((48 + d) as u8) as char
    } else {
        ((55 + d) as u8) as char
    }
}

/// Writes a text as a query value.
pub fn url_encode(input: &str) -> (r: String)
    ensures
        r@ == url_encoded(input@),
{
    let cs = chars_of(input);
    let mut out = String::new();
    let mut i: usize = 0;
    while i < cs.len()
        invariant
            i <= cs@.len(),
            out@ == url_encoded(cs@.take(i as int)),
        decreases cs@.len() - i,
    {
        let c = cs[i];
        let v = c as u32;
        let unreserved = (65 <= v && v <= 90) || (97 <= v && v <= 122) || (48 <= v && v <= 57) || v == 45 || v
            == 95 || v == 46 || v == 126;
        let ghost before = out@;
        if unreserved {
            push_char(&mut out, c);
        } else if c == ' ' {
            push_char(&mut out, '%');
            push_char(&mut out, '2');
            push_char(&mut out, '0');
        } else {
            let b = v % 256;
            push_char(&mut out, '%');
            push_char(&mut out, hex_char(b / 16));
            push_char(&mut out, hex_char(b % 16));
        }
        proof {
            let t = cs@.take(i as int + 1);
            assert(t.drop_last() =~= cs@.take(i as int));
            assert(t.last() == c);
            assert(out@ =~= before + encoded_char(c));
        }
        i += 1;
    }
    assert(cs@.take(cs@.len() as int) =~= cs@);
    out
}

/// Whether the characters `s` begin with the text `p`.
pub fn has_prefix(s: &Vec<char>, p: &str) -> (r: bool)
    ensures
        r == starts_with(s@, p@),
{
    let pc = chars_of(p);
    if pc.len() > s.len() {
        return false;
    }
    let mut i: usize = 0;
    while i < pc.len()
        invariant
            pc@ == p@,
            pc@.len() <= s@.len(),
            i <= pc@.len(),
            forall|k: int| 0 <= k < i ==> s@[k] == pc@[k],
        decreases pc@.len() - i,
    {
        if s[i] != pc[i] {
            assert(s@.subrange(0, pc@.len() as int)[i as int] != pc@[i as int]);
            return false;
        }
        i += 1;
    }
    assert(s@.subrange(0, pc@.len() as int) =~= pc@);
    true
}

/// Whether the canister may call a URL.
pub fn is_url_allowed(url: &str) -> (r: bool)
    ensures
        r == url_allowed(url@),
{
    let cs = chars_of(url);
    has_prefix(&cs, "https://") || has_prefix(&cs, "http://127.0.0.1") || has_prefix(&cs, "http://localhost")
}

/// Whether a text is empty once trimmed (all white space).
pub fn is_blank(t: &str) -> (r: bool)
    ensures
        r == all_space(t@),
{
    let cs = chars_of(t);
    let mut i: usize = 0;
    while i < cs.len()
        invariant
            cs@ == t@,
            i <= cs@.len(),
            forall|k: int| 0 <= k < i ==> crate::text::is_space(#[trigger] cs@[k]),
        decreases cs@.len() - i,
    {
        if !is_space_char(cs[i]) {
            return false;
        }
        i += 1;
    }
    true
}

/// The fields read from the worker's reply, each absent when the reply
/// lacks it.
#[derive(Debug)]
pub struct ReplyFields {
    pub prompt: Option<String>,
    pub name: Option<String>,
    pub caption: Option<String>,
    pub image_url: Option<String>,
    pub image_filename: Option<String>,
    pub image_format: Option<String>,
    /// The bits of the processing time, a 64-bit float.
    pub processing_time_bits: Option<u64>,
    pub timestamp: Option<u64>,
    pub file_size_bytes: Option<u64>,
    pub service: Option<String>,
}

/// The bits of the processing time assumed when the reply gives none (1.0).
pub const DEFAULT_PROCESSING_TIME_BITS: u64 = 0x3FF0_0000_0000_0000;

/// The file size assumed when the reply gives none.
pub const DEFAULT_FILE_SIZE_BYTES: u64 = 1_024_000;

/// The text of an optional field, or a default.
pub open spec fn text_or(v: Option<String>, d: Seq<char>) -> Seq<char> {
    match v {
        Some(s) => s@,
        None => d,
    }
}

/// The text of an optional field, or a default.
fn string_or(v: Option<String>, d: &str) -> (r: String)
    ensures
        r@ == text_or(v, d@),
{
    match v {
        Some(s) => s,
        None => String::from_str(d),
    }
}

/// What the outcome of the worker's HTTP status is: success for a status
/// in 200..300, an error naming the status otherwise.
pub open spec fn status_error(status: u64) -> Option<Seq<char>> {
    if 200 <= status < 300 {
        None
    } else {
        Some("HTTP "@ + decimal(status as nat) + " from worker"@)
    }
}

/// What `finish_generation` does for `user` at `now_ns` on a worker reply
/// with `status`, from state `a` to state `c` with result `r`.
pub open spec fn generation_outcome(a: Backend, c: Backend, user: Seq<char>, now_ns: u64, status: u64, r: Result<(), String>) -> bool {
    match status_error(status) {
        Some(msg) => r matches Err(e) && e@ == msg && c == a,
        None => if usage_on(a.store.rate@, user, now_ns / DAY_NS) >= DAILY_GENERATION_LIMIT {
            &&& r matches Err(e) && e@ == "Daily meme generation limit reached. Please try again tomorrow."@
            &&& c == a
        } else {
            &&& r is Ok
            &&& only_store_changed(a, c)
            &&& c.store.memes == a.store.memes
            &&& c.store.user_memes == a.store.user_memes
            &&& c.store.meme_counter == a.store.meme_counter
            &&& c.store.unique_users == a.store.unique_users
            &&& c.store.rate@ == a.store.rate@.insert(
                user,
                DayUsage { day: now_ns / DAY_NS, count: usage_on(a.store.rate@, user, now_ns / DAY_NS).wrapping_add(1) },
            )
        },
    }
}

impl Backend {
    /// The checks made before a meme is generated for `user` at `now_ns`,
    /// in order: a prompt of white space only, the anonymous user, the daily
    /// quota, the URL policy. Gives the worker URL to call.
    pub fn generation_request(&self, user: &UserId, prompt: &str, now_ns: u64) -> (r: Result<String, String>)
        requires
            self.wf(),
        ensures
            all_space(prompt@) ==> (r matches Err(e) && e@ == "Prompt cannot be empty"@),
            !all_space(prompt@) && user@ == anonymous_view() ==> (r matches Err(e) && e@
                == "Authentication required"@),
            !all_space(prompt@) && user@ != anonymous_view() && usage_on(self.store.rate@, user@, now_ns / DAY_NS)
                >= DAILY_GENERATION_LIMIT ==> (r matches Err(e) && e@
                == "Daily meme generation limit reached. Please try again tomorrow."@),
            !all_space(prompt@) && user@ != anonymous_view() && usage_on(self.store.rate@, user@, now_ns / DAY_NS)
                < DAILY_GENERATION_LIMIT ==> if url_allowed(worker_url(prompt@)) {
                r matches Ok(u) && u@ == worker_url(prompt@)
            } else {
                r matches Err(e) && e@ == "URL not allowed by canister policy"@
            },
    {
        if is_blank(prompt) {
            return Err(String::from_str("Prompt cannot be empty"));
        }
        if user.is_anonymous() {
            return Err(String::from_str("Authentication required"));
        }
        let day = generation_day(now_ns);
        if !self.generation_allowed(user, day) {
            return Err(String::from_str("Daily meme generation limit reached. Please try again tomorrow."));
        }
        let encoded = url_encode(prompt);
        let mut url = String::from_str(MEME_WORKER_URL);
        push_text(&mut url, "?prompt=");
        url.append(encoded.as_str());
        if !is_url_allowed(url.as_str()) {
            return Err(String::from_str("URL not allowed by canister policy"));
        }
        Ok(url)
    }

    /// The bookkeeping after the worker answered with `status` for `user` at
    /// `now_ns`: a status outside 200..300 is an error and changes nothing; a
    /// reply when the user's quota for the day is already used (by replies
    /// to other requests made meanwhile) is refused and changes nothing;
    /// otherwise one more generation is counted for the user's day.
    pub fn finish_generation(&mut self, user: &UserId, now_ns: u64, status: u64) -> (r: Result<(), String>)
        requires
            old(self).wf(),
        ensures
            history_kept(*old(self), *final(self)),
            final(self).wf(),
            generation_outcome(*old(self), *final(self), user@, now_ns, status, r),
    {
        if status < 200 || status >= 300 {
            let mut msg = String::from_str("HTTP ");
            push_decimal(&mut msg, status);
            push_text(&mut msg, " from worker");
            return Err(msg);
        }
        let day = generation_day(now_ns);
        if !self.generation_allowed(user, day) {
            return Err(String::from_str("Daily meme generation limit reached. Please try again tomorrow."));
        }
        self.record_generation(user, day);
        Ok(())
    }
}

/// The meme read from a reply's fields: name and caption as given, and each
/// other absent field takes its default (the prompt asked for, no image URL,
/// "generated_meme.png", "png", a processing time of 1.0, `now_ns`, 1024000
/// bytes, "icp-meme-generator").
pub fn meme_from_reply(prompt: String, f: ReplyFields, now_ns: u64) -> (r: MemeData)
    ensures
        r.prompt@ == text_or(f.prompt, prompt@),
        r.name == f.name,
        r.caption == f.caption,
        r.image_url@ == text_or(f.image_url, ""@),
        r.image_filename@ == text_or(f.image_filename, "generated_meme.png"@),
        r.image_format@ == text_or(f.image_format, "png"@),
        r.metadata.processing_time_bits == match f.processing_time_bits {
            Some(b) => b,
            None => DEFAULT_PROCESSING_TIME_BITS,
        },
        r.metadata.timestamp == match f.timestamp {
            Some(t) => t,
            None => now_ns,
        },
        r.metadata.file_size_bytes == match f.file_size_bytes {
            Some(n) => n,
            None => DEFAULT_FILE_SIZE_BYTES,
        },
        r.metadata.service@ == text_or(f.service, "icp-meme-generator"@),
{
    let p = match f.prompt {
        Some(s) => s,
        None => prompt,
    };
    MemeData {
        prompt: p,
        name: f.name,
        caption: f.caption,
        image_url: string_or(f.image_url, ""),
        image_filename: string_or(f.image_filename, "generated_meme.png"),
        image_format: string_or(f.image_format, "png"),
        metadata: PythonMetadata {
            processing_time_bits: match f.processing_time_bits {
                Some(b) => b,
                None => DEFAULT_PROCESSING_TIME_BITS,
            },
            timestamp: match f.timestamp {
                Some(t) => t,
                None => now_ns,
            },
            file_size_bytes: match f.file_size_bytes {
                Some(n) => n,
                None => DEFAULT_FILE_SIZE_BYTES,
            },
            service: string_or(f.service, "icp-meme-generator"),
        },
    }
}

} // verus!
