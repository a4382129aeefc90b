//! Minting memes as NFTs: the image's media type and fetch URL, the token
//! metadata, the checks before minting and the records written by it.

use vstd::prelude::*;
use crate::state::history_kept;
use crate::generation::{has_prefix, starts_with};
use crate::ids::{anonymous_view, UserId};
use crate::memes::public_of;
use crate::model::{ImageBlob, MetadataValue, MintingMode, PublicStoredMeme, TokenMetadataEntry, TokenRecord};
use crate::nft::{owner_tokens, sale_base, tokens_for_meme, SaleUpdate};
use crate::state::Backend;
use crate::text::{chars_of, decimal, decimal_text, leading, push_decimal, push_text, text_of, trim_chars, trim_start_where, trimmed};

verus! {

/// A character in ASCII lower case (other characters unchanged).
pub open spec fn lower_char(c: char) -> char {
    let v = c as u32;
    if 65 <= v <= 90 {
        (v + 32) as char
    } else {
        c
    }
}

/// A text in ASCII lower case.
pub open spec fn ascii_lower(s: Seq<char>) -> Seq<char> {
    s.map_values(|c: char| lower_char(c))
}

/// The media type of an image file extension, compared without regard to
/// ASCII case.
pub open spec fn content_type_of(ext: Seq<char>) -> Option<Seq<char>> {
    let l = ascii_lower(ext);
    if l == "png"@ {
        Some("image/png"@)
    } else if l == "jpg"@ || l == "jpeg"@ {
        Some("image/jpeg"@)
    } else if l == "webp"@ {
        Some("image/webp"@)
    } else if l == "gif"@ {
        Some("image/gif"@)
    } else if l == "bmp"@ {
        Some("image/bmp"@)
    } else if l == "tiff"@ || l == "tif"@ {
        Some("image/tiff"@)
    } else {
        None
    }
}

/// The characters of a text in ASCII lower case.
fn lower_chars(t: &str) -> (r: Vec<char>)
    ensures
        r@ == ascii_lower(t@),
{
    let cs = chars_of(t);
    let mut out: Vec<char> = Vec::new();
    let mut i: usize = 0;
    while i < cs.len()
        invariant
            cs@ == t@,
            i <= cs@.len(),
            out@ == ascii_lower(cs@.take(i as int)),
        decreases cs@.len() - i,
    {
        let c = cs[i];
        let v = c as u32;
        let l = if 65 <= v && v <= 90 {
            ((v + 32) as u8) as char
        } else {
            c
        };
        out.push(l);
        assert(ascii_lower(cs@.take(i as int + 1)) =~= ascii_lower(cs@.take(i as int)).push(lower_char(c)));
        i += 1;
    }
    assert(cs@.take(cs@.len() as int) =~= cs@);
    out
}

/// Whether the characters `cs` spell the text `t`.
fn spells(cs: &Vec<char>, t: &str) -> (r: bool)
    ensures
        r == (cs@ == t@),
{
    let tc = chars_of(t);
    if tc.len() != cs.len() {
        return false;
    }
    let p = has_prefix(cs, t);
    assert(cs@.subrange(0, tc@.len() as int) =~= cs@);
    p
}

/// The media type of an image file extension.
pub fn guess_content_type(ext: &str) -> (r: Option<String>)
    ensures
        match r {
            Some(s) => content_type_of(ext@) == Some(s@),
            None => content_type_of(ext@).is_none(),
        },
{
    let l = lower_chars(ext);
    if spells(&l, "png") {
        Some(String::from_str("image/png"))
    } else if spells(&l, "jpg") || spells(&l, "jpeg") {
        Some(String::from_str("image/jpeg"))
    } else if spells(&l, "webp") {
        Some(String::from_str("image/webp"))
    } else if spells(&l, "gif") {
        Some(String::from_str("image/gif"))
    } else if spells(&l, "bmp") {
        Some(String::from_str("image/bmp"))
    } else if spells(&l, "tiff") || spells(&l, "tif") {
        Some(String::from_str("image/tiff"))
    } else {
        None
    }
}

/// The slash, as a predicate.
pub open spec fn slashes() -> spec_fn(char) -> bool {
    |c: char| c == '/'
}

/// The URL an image is fetched from: the trimmed URL when it is HTTPS or
/// local HTTP, an `ipfs://` address through the public gateway (leading
/// slashes of its path dropped), other HTTP upgraded to HTTPS; anything
/// else, or a blank URL, is refused.
pub open spec fn normalized_url(url: Seq<char>) -> Result<Seq<char>, Seq<char>> {
    let t = trimmed(url);
    if t.len() == 0 {
        Err("Empty image URL"@)
    } else if starts_with(t, "https://"@) {
        Ok(t)
    } else if starts_with(t, "http://127.0.0.1"@) || starts_with(t, "http://localhost"@) {
        Ok(t)
    } else if starts_with(t, "ipfs://"@) {
        let rest = t.subrange("ipfs://"@.len() as int, t.len() as int);
        Ok("https://ipfs.io/ipfs/"@ + trim_start_where(rest, slashes()))
    } else if starts_with(t, "http://"@) {
        Ok("https://"@ + t.subrange("http://"@.len() as int, t.len() as int))
    } else {
        Err("Url need to specify https scheme"@)
    }
}

/// The characters of `cs` from position `from` on.
fn chars_from(cs: &Vec<char>, from: usize) -> (r: Vec<char>)
    requires
        from <= cs@.len(),
    ensures
        r@ == cs@.subrange(from as int, cs@.len() as int),
{
    let mut out: Vec<char> = Vec::new();
    let mut k = from;
    while k < cs.len()
        invariant
            from <= k <= cs@.len(),
            out@ == cs@.subrange(from as int, k as int),
        decreases cs@.len() - k,
    {
        out.push(cs[k]);
        assert(cs@.subrange(from as int, k as int + 1) =~= cs@.subrange(from as int, k as int).push(cs@[k as int]));
        k += 1;
    }
    out
}

/// The characters of `cs` without their leading slashes.
fn trim_slashes(cs: &Vec<char>) -> (r: Vec<char>)
    ensures
        r@ == trim_start_where(cs@, slashes()),
{
    let n = cs.len();
    let mut i: usize = 0;
    let ghost p = slashes();
    assert(cs@.subrange(0, n as int) =~= cs@);
    while i < n && cs[i] == '/'
        invariant
            i <= n,
            n == cs@.len(),
            p == slashes(),
            leading(cs@, p) == i + leading(cs@.subrange(i as int, n as int), p),
        decreases n - i,
    {
        assert(cs@.subrange(i as int, n as int).drop_first() =~= cs@.subrange(i as int + 1, n as int));
        assert(cs@.subrange(i as int, n as int)[0] == cs@[i as int]);
        assert(p(cs@[i as int]));
        i += 1;
    }
    proof {
        assert(cs@.subrange(0, n as int) =~= cs@);
        if i < n {
            assert(cs@.subrange(i as int, n as int)[0] == cs@[i as int]);
        }
    }
    chars_from(cs, i)
}

/// The URL an image is fetched from.
pub fn normalize_image_url(url: &str) -> (r: Result<String, String>)
    ensures
        match r {
            Ok(s) => normalized_url(url@) == Ok::<Seq<char>, Seq<char>>(s@),
            Err(e) => normalized_url(url@) == Err::<Seq<char>, Seq<char>>(e@),
        },
{
    let cs = chars_of(url);
    let t = trim_chars(&cs);
    if t.len() == 0 {
        return Err(String::from_str("Empty image URL"));
    }
    if has_prefix(&t, "https://") {
        return Ok(text_of(&t));
    }
    if has_prefix(&t, "http://127.0.0.1") || has_prefix(&t, "http://localhost") {
        return Ok(text_of(&t));
    }
    if has_prefix(&t, "ipfs://") {
        let skip = chars_of("ipfs://").len();
        let rest = chars_from(&t, skip);
        let path = trim_slashes(&rest);
        let mut out = String::from_str("https://ipfs.io/ipfs/");
        let tail = text_of(&path);
        out.append(tail.as_str());
        return Ok(out);
    }
    if has_prefix(&t, "http://") {
        let skip = chars_of("http://").len();
        let rest = chars_from(&t, skip);
        let mut out = String::from_str("https://");
        let tail = text_of(&rest);
        out.append(tail.as_str());
        return Ok(out);
    }
    Err(String::from_str("Url need to specify https scheme"))
}

/// Whether a metadata value is the text `t`.
pub open spec fn text_value(v: MetadataValue, t: Seq<char>) -> bool {
    v matches MetadataValue::Text(s) && s@ == t
}

/// Whether a metadata entry is the immutable text `t` under `name`.
pub open spec fn text_entry(e: TokenMetadataEntry, name: Seq<char>, t: Seq<char>) -> bool {
    e.name@ == name && e.immutable && text_value(e.value, t)
}

/// Whether a pair is the text `t` under `key`.
pub open spec fn text_pair(p: (String, MetadataValue), key: Seq<char>, t: Seq<char>) -> bool {
    p.0@ == key && text_value(p.1, t)
}

/// The caption of a meme, empty when it has none.
pub open spec fn caption_text(c: Option<String>) -> Seq<char> {
    match c {
        Some(s) => s@,
        None => Seq::empty(),
    }
}

/// Whether `ps` are the described fields of a meme minted as token `token_id`.
pub open spec fn meme_pairs(ps: Seq<(String, MetadataValue)>, m: PublicStoredMeme, token_id: u64) -> bool {
    &&& ps.len() == 11
    &&& text_pair(ps[0], "meme:id"@, decimal(m.id as nat))
    &&& text_pair(ps[1], "meme:prompt"@, m.meme_data.prompt@)
    &&& text_pair(ps[2], "meme:caption"@, caption_text(m.meme_data.caption))
    &&& text_pair(ps[3], "meme:filename"@, m.meme_data.image_filename@)
    &&& text_pair(ps[4], "meme:format"@, m.meme_data.image_format@)
    &&& text_pair(ps[5], "meme:service"@, m.meme_data.metadata.service@)
    &&& text_pair(ps[6], "meme:ai_timestamp_ns"@, decimal(m.meme_data.metadata.timestamp as nat))
    &&& text_pair(ps[7], "meme:file_size_bytes"@, decimal(m.meme_data.metadata.file_size_bytes as nat))
    &&& text_pair(ps[8], "meme:created_at_ns"@, decimal(m.created_at as nat))
    &&& text_pair(ps[9], "meme:stored_at_ns"@, decimal(m.canister_timestamp as nat))
    &&& text_pair(ps[10], "nft:token_id"@, decimal(token_id as nat))
}

/// Whether `md` is the metadata of meme `m` minted as token `token_id`: the
/// image URI, the meme's fields, and the media type of its format when it
/// is known.
pub open spec fn base_metadata(md: Seq<TokenMetadataEntry>, m: PublicStoredMeme, token_id: u64) -> bool {
    let ct = content_type_of(m.meme_data.image_format@);
    &&& md.len() == if ct.is_some() { 3nat } else { 2nat }
    &&& text_entry(md[0], "icrc7:metadata:uri:image"@, m.meme_data.image_url@)
    &&& md[1].name@ == "icrc7:token_metadata"@
    &&& md[1].immutable
    &&& md[1].value matches MetadataValue::Pairs(ps) && meme_pairs(ps@, m, token_id)
    &&& ct.is_some() ==> text_entry(md[2], "icrc7:metadata:content_type"@, ct.unwrap())
}

/// An immutable text entry.
fn entry(name: &str, value: String) -> (r: TokenMetadataEntry)
    ensures
        text_entry(r, name@, value@),
{
    TokenMetadataEntry { name: String::from_str(name), immutable: true, value: MetadataValue::Text(value) }
}

/// A text pair.
fn pair(key: &str, value: String) -> (r: (String, MetadataValue))
    ensures
        text_pair(r, key@, value@),
{
    (String::from_str(key), MetadataValue::Text(value))
}

/// The metadata of meme `m` minted as token `token_id`.
pub fn build_metadata(m: &PublicStoredMeme, token_id: u64) -> (r: Vec<TokenMetadataEntry>)
    ensures
        base_metadata(r@, *m, token_id),
{
    let ct = guess_content_type(m.meme_data.image_format.as_str());
    let caption = match &m.meme_data.caption {
        Some(c) => c.clone(),
        None => String::new(),
    };
    let mut ps: Vec<(String, MetadataValue)> = Vec::new();
    ps.push(pair("meme:id", decimal_text(m.id)));
    ps.push(pair("meme:prompt", m.meme_data.prompt.clone()));
    ps.push(pair("meme:caption", caption));
    ps.push(pair("meme:filename", m.meme_data.image_filename.clone()));
    ps.push(pair("meme:format", m.meme_data.image_format.clone()));
    ps.push(pair("meme:service", m.meme_data.metadata.service.clone()));
    ps.push(pair("meme:ai_timestamp_ns", decimal_text(m.meme_data.metadata.timestamp)));
    ps.push(pair("meme:file_size_bytes", decimal_text(m.meme_data.metadata.file_size_bytes)));
    ps.push(pair("meme:created_at_ns", decimal_text(m.created_at)));
    ps.push(pair("meme:stored_at_ns", decimal_text(m.canister_timestamp)));
    ps.push(pair("nft:token_id", decimal_text(token_id)));
    let mut root: Vec<TokenMetadataEntry> = Vec::new();
    root.push(entry("icrc7:metadata:uri:image", m.meme_data.image_url.clone()));
    root.push(TokenMetadataEntry {
        name: String::from_str("icrc7:token_metadata"),
        immutable: true,
        value: MetadataValue::Pairs(ps),
    });
    match ct {
        Some(ctext) => {
            root.push(entry("icrc7:metadata:content_type", ctext));
        },
        None => {},
    }
    root
}

/// The most editions one collection mint may create.
pub const MAX_EDITIONS: u32 = 50;

/// The media type stored for images whose format is not known.
pub open spec fn mime_of(format: Seq<char>) -> Seq<char> {
    match content_type_of(format) {
        Some(t) => t,
        None => "application/octet-stream"@,
    }
}

/// How many tokens a mode mints, or why it is refused, given whether the
/// meme already has tokens.
pub open spec fn editions_of(mode: MintingMode, minted: bool) -> Result<u64, Seq<char>> {
    match mode {
        MintingMode::Single => if minted {
            Err("Meme has already been minted as an NFT"@)
        } else {
            Ok(1)
        },
        MintingMode::Collection { editions } => if editions == 0 {
            Err("Collection supply must be greater than zero"@)
        } else if editions > MAX_EDITIONS {
            Err("Collection supply cannot exceed 50 editions"@)
        } else if minted {
            Err("A collection has already been minted for this meme"@)
        } else {
            Ok(editions as u64)
        },
    }
}

/// The refusal of a mint for a meme that already has tokens.
pub open spec fn already_minted_error(mode: MintingMode) -> Seq<char> {
    match mode {
        MintingMode::Single => "Meme has already been minted as an NFT"@,
        MintingMode::Collection { .. } => "A collection has already been minted for this meme"@,
    }
}

/// What minting a meme needs once the checks passed: the mode asked for,
/// the meme, how many tokens to mint, where its image is fetched from, its
/// media type and the image bytes already stored for it, if any.
pub struct MintPlan {
    pub mode: MintingMode,
    pub meme: PublicStoredMeme,
    pub to_mint: u64,
    pub fetch_url: String,
    pub mime_type: String,
    pub cached_image: Option<Vec<u8>>,
}

/// What `complete_mint` does with `plan`, the fetched `image` and the time
/// `minted_at`, from state `b` to state `c` with result `r`.
pub open spec fn mint_outcome(b: Backend, c: Backend, plan: MintPlan, image: Seq<u8>, minted_at: u64, r: Result<Vec<u64>, String>) -> bool {
    &&& tokens_for_meme(b.nft.mint_index@, plan.meme.id).len() > 0 ==> (r matches Err(e) && e@
        == already_minted_error(plan.mode) && c == b)
    &&& tokens_for_meme(b.nft.mint_index@, plan.meme.id).len() == 0 ==> (r matches Ok(v) && ({
        let s = b.nft.collection.total_supply;
        let n = plan.to_mint;
        let meme_id = plan.meme.id;
        let owner = plan.meme.owner@;
        let ex = tokens_for_meme(b.nft.mint_index@, meme_id);
        &&& v@.len() == n
        &&& forall|k: int| 0 <= k < n ==> #[trigger] v@[k] == s + k
        &&& c.nft.collection == (crate::model::CollectionState {
            total_supply: (s + n) as u64,
            ..b.nft.collection
        })
        &&& c.nft.stored_images@.remove(meme_id) == b.nft.stored_images@.remove(meme_id)
        &&& c.nft.stored_images@.contains_key(meme_id)
        &&& c.nft.stored_images@[meme_id].0@ == image
        &&& c.nft.mint_index@.remove(meme_id) == b.nft.mint_index@.remove(meme_id)
        &&& c.nft.mint_index@.contains_key(meme_id)
        &&& c.nft.mint_index@[meme_id]@ == ex + v@
        &&& n > 0 ==> c.nft.owner_index@.contains_key(owner)
        &&& owner_tokens(c.nft.owner_index@, owner) == owner_tokens(b.nft.owner_index@, owner) + v@
        &&& c.nft.owner_index@.remove(owner) == b.nft.owner_index@.remove(owner)
        &&& forall|t: u64| #[trigger] c.nft.tokens@.contains_key(t) == (b.nft.tokens@.contains_key(t) || s <= t < s + n)
        &&& forall|t: u64| #![trigger c.nft.tokens@[t]] b.nft.tokens@.contains_key(t) && !(s <= t < s + n) ==> c.nft.tokens@[t] == b.nft.tokens@[t]
        &&& forall|k: int| 0 <= k < n ==> minted_record(
            #[trigger] c.nft.tokens@[(s + k) as u64],
            plan,
            (s + k) as u64,
            minted_at,
            (ex.len() + k + 1) as u64,
            (ex.len() + n) as u64,
        )
        &&& forall|t: u64| #[trigger] c.nft.token_sales@.contains_key(t) == (b.nft.token_sales@.contains_key(t) || s <= t < s + n)
        &&& forall|t: u64| #![trigger c.nft.token_sales@[t]] s <= t < s + n ==> c.nft.token_sales@[t] == sale_base(b.nft.token_sales@, t, meme_id)
        &&& forall|t: u64| #![trigger c.nft.token_sales@[t]] b.nft.token_sales@.contains_key(t) && !(s <= t < s + n) ==> c.nft.token_sales@[t] == b.nft.token_sales@[t]
        &&& c.weeks == b.weeks
        &&& c.board == b.board
        &&& c.voting == b.voting
        &&& c.store == b.store
    }))
}

/// Whether `md` is the metadata of an edition of meme `m` minted as token
/// `t`: the metadata of the meme, the stored media type, and for a run of
/// more than one edition its number and the run's size.
pub open spec fn minted_metadata(
    md: Seq<TokenMetadataEntry>,
    m: PublicStoredMeme,
    t: u64,
    mime: Seq<char>,
    edition: u64,
    total: u64,
) -> bool {
    let k: int = if content_type_of(m.meme_data.image_format@).is_some() { 3 } else { 2 };
    &&& md.len() == k + 1 + (if total > 1 { 2int } else { 0int })
    &&& base_metadata(md.take(k), m, t)
    &&& text_entry(md[k], "icrc7:metadata:content_type"@, mime)
    &&& total > 1 ==> text_entry(md[k + 1], "meme:edition_number"@, decimal(edition as nat)) && text_entry(
        md[k + 2],
        "meme:edition_total"@,
        decimal(total as nat),
    )
}

/// Whether `rec` is the record of edition `edition` of `total` of a plan's
/// meme, minted as token `t` at `minted_at`.
pub open spec fn minted_record(rec: TokenRecord, plan: MintPlan, t: u64, minted_at: u64, edition: u64, total: u64) -> bool {
    &&& rec.token_id == t
    &&& rec.owner == plan.meme.owner
    &&& rec.minted_at == minted_at
    &&& rec.meme_id == plan.meme.id
    &&& rec.mime_type == Some(plan.mime_type)
    &&& rec.has_image
    &&& minted_metadata(rec.metadata@, plan.meme, t, plan.mime_type@, edition, total)
}

impl Backend {
    /// The checks made before `caller` mints meme `meme_id` in `mode`, in
    /// order: the anonymous caller, the mode against the meme's tokens, the
    /// meme's existence and owner, and its image URL. Gives the plan. No
    /// winner entitlement is asked for: any owner may mint their memes.
    pub fn prepare_mint(&self, caller: &UserId, meme_id: u64, mode: MintingMode) -> (r: Result<MintPlan, String>)
        requires
            self.wf(),
        ensures
            ({
                let b = *self;
                if caller@ == anonymous_view() {
                    r matches Err(e) && e@ == "Authentication required"@
                } else {
                    match editions_of(mode, tokens_for_meme(b.nft.mint_index@, meme_id).len() > 0) {
                        Err(msg) => r matches Err(e) && e@ == msg,
                        Ok(n) => if !b.store.memes@.contains_key(meme_id) {
                            r matches Err(e) && e@ == "StoredMeme "@ + decimal(meme_id as nat) + " not found in voting canister"@
                        } else if b.store.memes@[meme_id].owner@ != caller@ {
                            r matches Err(e) && e@ == "Only the winning meme owner can mint this NFT"@
                        } else {
                            let m = b.store.memes@[meme_id];
                            match normalized_url(m.meme_data.image_url@) {
                                Err(msg) => r matches Err(e) && e@ == msg,
                                Ok(u) => r matches Ok(plan) && {
                                    &&& plan.mode == mode
                                    &&& plan.meme == public_of(b, m)
                                    &&& plan.meme.id == meme_id
                                    &&& plan.to_mint == n
                                    &&& plan.fetch_url@ == u
                                    &&& plan.mime_type@ == mime_of(m.meme_data.image_format@)
                                    &&& match plan.cached_image {
                                        Some(v) => b.nft.stored_images@.contains_key(meme_id) && v@
                                            == b.nft.stored_images@[meme_id].0@,
                                        None => !b.nft.stored_images@.contains_key(meme_id),
                                    }
                                },
                            }
                        }
                    }
                }
            }),
    {
        if caller.is_anonymous() {
            return Err(String::from_str("Authentication required"));
        }
        let existing = self.get_tokens_by_meme_id(meme_id);
        let to_mint: u64 = match mode {
            MintingMode::Single => {
                if existing.len() > 0 {
                    return Err(String::from_str("Meme has already been minted as an NFT"));
                }
                1
            },
            MintingMode::Collection { editions } => {
                if editions == 0 {
                    return Err(String::from_str("Collection supply must be greater than zero"));
                }
                if editions > MAX_EDITIONS {
                    return Err(String::from_str("Collection supply cannot exceed 50 editions"));
                }
                if existing.len() > 0 {
                    return Err(String::from_str("A collection has already been minted for this meme"));
                }
                editions as u64
            },
        };
        let meme = match self.get_meme(meme_id) {
            Some(m) => m,
            None => {
                let mut msg = String::from_str("StoredMeme ");
                push_decimal(&mut msg, meme_id);
                push_text(&mut msg, " not found in voting canister");
                return Err(msg);
            },
        };
        if !caller.same(&meme.owner) {
            return Err(String::from_str("Only the winning meme owner can mint this NFT"));
        }
        let fetch_url = match normalize_image_url(meme.meme_data.image_url.as_str()) {
            Ok(u) => u,
            Err(e) => return Err(e),
        };
        let mime_type = match guess_content_type(meme.meme_data.image_format.as_str()) {
            Some(t) => t,
            None => String::from_str("application/octet-stream"),
        };
        let cached_image = match self.nft.stored_images.get(meme_id) {
            Some(blob) => {
                let v = blob.0.clone();
                assert(v@ =~= blob.0@);
                Some(v)
            },
            None => None,
        };
        Ok(MintPlan { mode, meme, to_mint, fetch_url, mime_type, cached_image })
    }

    /// Mints one edition of a plan's meme as the next token: its record, its
    /// owner's list and a sale record (the stored one, else a fresh one).
    fn mint_one(&mut self, plan: &MintPlan, edition: u64, total: u64, minted_at: u64) -> (t: u64)
        requires
            old(self).wf(),
            old(self).nft.collection.total_supply < u64::MAX,
        ensures
            final(self).wf(),
            t == old(self).nft.collection.total_supply,
            final(self).nft.collection == (crate::model::CollectionState {
                total_supply: (t + 1) as u64,
                ..old(self).nft.collection
            }),
            final(self).nft.tokens@ == old(self).nft.tokens@.insert(t, final(self).nft.tokens@[t]),
            minted_record(final(self).nft.tokens@[t], *plan, t, minted_at, edition, total),
            final(self).nft.owner_index@.remove(plan.meme.owner@) == old(self).nft.owner_index@.remove(
                plan.meme.owner@,
            ),
            final(self).nft.owner_index@.contains_key(plan.meme.owner@),
            final(self).nft.owner_index@[plan.meme.owner@]@ == owner_tokens(
                old(self).nft.owner_index@,
                plan.meme.owner@,
            ).push(t),
            final(self).nft.token_sales@ == old(self).nft.token_sales@.insert(
                t,
                sale_base(old(self).nft.token_sales@, t, plan.meme.id),
            ),
            final(self).nft.mint_index == old(self).nft.mint_index,
            final(self).nft.stored_images == old(self).nft.stored_images,
            final(self).weeks == old(self).weeks,
            final(self).board == old(self).board,
            final(self).voting == old(self).voting,
            final(self).store == old(self).store,
    {
        let t = self.next_token_id();
        let mut md = build_metadata(&plan.meme, t);
        let ghost base = md@;
        md.push(entry("icrc7:metadata:content_type", plan.mime_type.clone()));
        if total > 1 {
            md.push(entry("meme:edition_number", decimal_text(edition)));
            md.push(entry("meme:edition_total", decimal_text(total)));
        }
        proof {
            let k: int = if content_type_of(plan.meme.meme_data.image_format@).is_some() { 3 } else { 2 };
            assert(md@.take(k) =~= base);
        }
        let rec = TokenRecord {
            token_id: t,
            owner: plan.meme.owner.copy(),
            minted_at,
            meme_id: plan.meme.id,
            metadata: md,
            mime_type: Some(plan.mime_type.clone()),
            has_image: true,
        };
        self.nft.tokens.insert(t, rec);
        self.push_owner(&plan.meme.owner, t);
        self.mutate_sale_metadata(t, plan.meme.id, SaleUpdate::Keep);
        proof {
            assert(self.nft.owner_index@.remove(plan.meme.owner@) =~= old(self).nft.owner_index@.remove(
                plan.meme.owner@,
            ));
        }
        t
    }
    /// Mints a plan's editions with the fetched `image` at `minted_at`. A
    /// meme that has tokens by now (minted while the image was fetched) is
    /// refused, as the plan's mode refuses it, and nothing changes.
    /// Otherwise the image is stored for the meme, each edition gets the
    /// next token id, and the meme's token list becomes the new tokens.
    /// Returns the new token ids.
    #[verifier::rlimit(40)]
    pub fn complete_mint(&mut self, plan: &MintPlan, image: Vec<u8>, minted_at: u64) -> (r: Result<Vec<u64>, String>)
        requires
            old(self).wf(),
            old(self).nft.collection.total_supply + plan.to_mint <= u64::MAX,
        ensures
            history_kept(*old(self), *final(self)),
            final(self).wf(),
            mint_outcome(*old(self), *final(self), *plan, image@, minted_at, r),
    {
        let ghost b = *self;
        let meme_id = plan.meme.id;
        let owner = plan.meme.owner.copy();
        let existing = self.get_tokens_by_meme_id(meme_id);
        if existing.len() > 0 {
            return match plan.mode {
                MintingMode::Single => Err(String::from_str("Meme has already been minted as an NFT")),
                MintingMode::Collection { .. } => Err(String::from_str("A collection has already been minted for this meme")),
            };
        }
        let ghost ex = existing@;
        let s = self.nft.collection.total_supply;
        let n = plan.to_mint;
        let total: u64 = existing.len() as u64 + n;
        self.nft.stored_images.insert(meme_id, ImageBlob(image));
        let ghost b1 = *self;
        let mut all_tokens = existing;
        let mut minted: Vec<u64> = Vec::new();
        let mut k: u64 = 0;
        while k < n
            invariant
                self.wf(),
                b.wf(),
                n == plan.to_mint,
                s == b.nft.collection.total_supply,
                s + n <= u64::MAX,
                total == ex.len() + n,
                ex == tokens_for_meme(b.nft.mint_index@, meme_id),
                meme_id == plan.meme.id,
                owner@ == plan.meme.owner@,
                k <= n,
                minted@.len() == k,
                forall|j: int| 0 <= j < k ==> #[trigger] minted@[j] == s + j,
                all_tokens@ == ex + minted@,
                self.nft.collection == (crate::model::CollectionState { total_supply: (s + k) as u64, ..b.nft.collection }),
                self.nft.stored_images == b1.nft.stored_images,
                self.nft.mint_index == b.nft.mint_index,
                self.weeks == b.weeks,
                self.board == b.board,
                self.voting == b.voting,
                self.store == b.store,
                k > 0 ==> self.nft.owner_index@.contains_key(owner@),
                owner_tokens(self.nft.owner_index@, owner@) == owner_tokens(b.nft.owner_index@, owner@) + minted@,
                self.nft.owner_index@.remove(owner@) == b.nft.owner_index@.remove(owner@),
                forall|t: u64| #[trigger] self.nft.tokens@.contains_key(t) == (b.nft.tokens@.contains_key(t) || s <= t < s + k),
                forall|t: u64| #![trigger self.nft.tokens@[t]] b.nft.tokens@.contains_key(t) && !(s <= t < s + k) ==> self.nft.tokens@[t] == b.nft.tokens@[t],
                forall|j: int| 0 <= j < k ==> minted_record(
                    #[trigger] self.nft.tokens@[(s + j) as u64],
                    *plan,
                    (s + j) as u64,
                    minted_at,
                    (ex.len() + j + 1) as u64,
                    total,
                ),
                forall|t: u64| #[trigger] self.nft.token_sales@.contains_key(t) == (b.nft.token_sales@.contains_key(t) || s <= t < s + k),
                forall|t: u64| #![trigger self.nft.token_sales@[t]] s <= t < s + k ==> self.nft.token_sales@[t] == sale_base(b.nft.token_sales@, t, meme_id),
                forall|t: u64| #![trigger self.nft.token_sales@[t]] b.nft.token_sales@.contains_key(t) && !(s <= t < s + k) ==> self.nft.token_sales@[t] == b.nft.token_sales@[t],
            decreases n - k,
        {
            let ghost pre = *self;
            let edition: u64 = all_tokens.len() as u64 + 1;
            let t = self.mint_one(plan, edition, total, minted_at);
            proof {
                assert(t == s + k);
                assert(sale_base(pre.nft.token_sales@, t, meme_id) == sale_base(b.nft.token_sales@, t, meme_id));
                assert(owner_tokens(self.nft.owner_index@, owner@) =~= owner_tokens(b.nft.owner_index@, owner@) + minted@.push(t));
                assert(self.nft.owner_index@.remove(owner@) =~= b.nft.owner_index@.remove(owner@));
            }
            all_tokens.push(t);
            minted.push(t);
            proof {
                assert(all_tokens@ =~= ex + minted@);
            }
            k += 1;
        }
        proof {
            assert forall|m: u64, i: int|
                #![trigger self.nft.mint_index@.insert(meme_id, all_tokens)[m]@[i]]
                self.nft.mint_index@.insert(meme_id, all_tokens).contains_key(m) && 0 <= i < self.nft.mint_index@.insert(meme_id, all_tokens)[m]@.len()
                implies self.nft.mint_index@.insert(meme_id, all_tokens)[m]@[i] < s + n by {
                if m == meme_id {
                    if i < ex.len() {
                        assert(b.nft.mint_index@[meme_id]@[i] < s);
                    }
                } else {
                    assert(b.nft.mint_index@[m]@[i] < s);
                }
            }
            assert forall|m1: u64, m2: u64, i: int, j: int|
                #![trigger self.nft.mint_index@.insert(meme_id, all_tokens)[m1]@[i], self.nft.mint_index@.insert(meme_id, all_tokens)[m2]@[j]]
                m1 != m2 && self.nft.mint_index@.insert(meme_id, all_tokens).contains_key(m1) && self.nft.mint_index@.insert(meme_id, all_tokens).contains_key(m2)
                && 0 <= i < self.nft.mint_index@.insert(meme_id, all_tokens)[m1]@.len() && 0 <= j < self.nft.mint_index@.insert(meme_id, all_tokens)[m2]@.len()
                implies self.nft.mint_index@.insert(meme_id, all_tokens)[m1]@[i] != self.nft.mint_index@.insert(meme_id, all_tokens)[m2]@[j] by {
                let mi = self.nft.mint_index@.insert(meme_id, all_tokens);
                if m1 == meme_id {
                    assert(b.nft.mint_index@[m2]@[j] < s);
                    if i < ex.len() {
                        assert(b.nft.mint_index@[m1]@[i] != b.nft.mint_index@[m2]@[j]);
                    } else {
                        assert(mi[m1]@[i] == minted@[i - ex.len()]);
                    }
                } else if m2 == meme_id {
                    assert(b.nft.mint_index@[m1]@[i] < s);
                    if j < ex.len() {
                        assert(b.nft.mint_index@[m1]@[i] != b.nft.mint_index@[m2]@[j]);
                    } else {
                        assert(mi[m2]@[j] == minted@[j - ex.len()]);
                    }
                } else {
                    assert(b.nft.mint_index@[m1]@[i] != b.nft.mint_index@[m2]@[j]);
                }
            }
        }
        self.nft.mint_index.insert(meme_id, all_tokens);
        proof {
            assert(self.nft.mint_index@.remove(meme_id) =~= b.nft.mint_index@.remove(meme_id));
            assert(self.nft.stored_images@.remove(meme_id) =~= b.nft.stored_images@.remove(meme_id));
        }
        Ok(minted)
    }
}

} // verus!
