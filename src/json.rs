//! The diagnostic JSON rendering of a source chain, newest element first.
use crate::hash::{HoloHash, Signature};
use crate::header::{Element, Entry, EntryType, Header, HeaderContent};
use vstd::prelude::*;
use vstd::string::StringSliceAdditionalSpecFns;
use vstd::utf8::{decode_utf8, encode_utf8, valid_utf8};

verus! {

/// The UTF-8 bytes of a piece of text.
pub open spec fn lit(s: &str) -> Seq<u8> {
    s.spec_bytes()
}

pub open spec fn hex_char(d: nat) -> u8 {
    if d < 10 {
        (48 + d) as u8
    } else {
        (87 + d) as u8
    }
}

/// The `n` low hexadecimal digits of `x`, most significant first.
pub open spec fn hex_digits(x: nat, n: nat) -> Seq<u8>
    decreases n,
{
    if n == 0 {
        seq![]
    } else {
        hex_digits(x / 16, (n - 1) as nat).push(hex_char(x % 16))
    }
}

/// The decimal digits of `x`.
pub open spec fn dec(x: nat) -> Seq<u8>
    decreases x,
{
    if x < 10 {
        seq![(48 + x) as u8]
    } else {
        dec(x / 10).push((48 + x % 10) as u8)
    }
}

/// Two hexadecimal digits per byte.
pub open spec fn bytes_hex(b: Seq<u8>) -> Seq<u8>
    decreases b.len(),
{
    if b.len() == 0 {
        seq![]
    } else {
        bytes_hex(b.drop_last()) + hex_digits(b.last() as nat, 2)
    }
}

pub open spec fn quoted(s: Seq<u8>) -> Seq<u8> {
    lit("\"") + s + lit("\"")
}

/// A content address as a quoted string of 64 hexadecimal digits.
pub open spec fn hash_json(h: HoloHash) -> Seq<u8> {
    quoted(hex_digits(h.hi as nat, 32) + hex_digits(h.lo as nat, 32))
}

pub open spec fn signature_json(s: Signature) -> Seq<u8> {
    quoted(
        hex_digits(s.w0 as nat, 32) + hex_digits(s.w1 as nat, 32) + hex_digits(s.w2 as nat, 32)
            + hex_digits(s.w3 as nat, 32),
    )
}

pub open spec fn opt_hash_json(h: Option<HoloHash>) -> Seq<u8> {
    match h {
        None => lit("null"),
        Some(x) => hash_json(x),
    }
}

pub open spec fn entry_type_json(t: EntryType) -> Seq<u8> {
    match t {
        EntryType::AgentPubKey => lit("\"AgentPubKey\""),
        EntryType::App => lit("\"App\""),
    }
}

/// The kind of a header and its own fields.
pub open spec fn content_json(c: HeaderContent) -> Seq<u8> {
    match c {
        HeaderContent::Dna { hash } => lit("\"type\":\"Dna\",\"hash\":") + hash_json(hash),
        HeaderContent::AgentValidationPkg { membrane_proof } => lit(
            "\"type\":\"AgentValidationPkg\",\"membrane_proof\":",
        ) + match membrane_proof {
            None => lit("null"),
            Some(p) => quoted(bytes_hex(p@)),
        },
        HeaderContent::Create { entry_type, entry_hash } => lit("\"type\":\"Create\",\"entry_type\":")
            + entry_type_json(entry_type) + lit(",\"entry_hash\":") + hash_json(entry_hash),
        HeaderContent::Update { original_header_address, entry_type, entry_hash } => lit(
            "\"type\":\"Update\",\"original_header_address\":",
        ) + hash_json(original_header_address) + lit(",\"entry_type\":") + entry_type_json(entry_type)
            + lit(",\"entry_hash\":") + hash_json(entry_hash),
        HeaderContent::Delete { deletes_address } => lit("\"type\":\"Delete\",\"deletes_address\":")
            + hash_json(deletes_address),
        HeaderContent::CreateLink { base_address, target_address, tag } => lit(
            "\"type\":\"CreateLink\",\"base_address\":",
        ) + hash_json(base_address) + lit(",\"target_address\":") + hash_json(target_address) + lit(
            ",\"tag\":",
        ) + quoted(bytes_hex(tag@)),
        HeaderContent::DeleteLink { link_add_address, base_address } => lit(
            "\"type\":\"DeleteLink\",\"link_add_address\":",
        ) + hash_json(link_add_address) + lit(",\"base_address\":") + hash_json(base_address),
        HeaderContent::OpenChain { prev_dna_hash } => lit("\"type\":\"OpenChain\",\"prev_dna_hash\":")
            + hash_json(prev_dna_hash),
        HeaderContent::CloseChain { new_dna_hash } => lit("\"type\":\"CloseChain\",\"new_dna_hash\":")
            + hash_json(new_dna_hash),
        HeaderContent::InitZomesComplete => lit("\"type\":\"InitZomesComplete\""),
    }
}

pub open spec fn header_json(h: Header) -> Seq<u8> {
    lit("{") + content_json(h.content) + lit(",\"author\":") + hash_json(h.author) + lit(
        ",\"timestamp\":",
    ) + dec(h.timestamp as nat) + lit(",\"header_seq\":") + dec(h.header_seq as nat) + lit(
        ",\"prev_header\":",
    ) + opt_hash_json(h.prev_header) + lit("}")
}

pub open spec fn entry_json(e: Entry) -> Seq<u8> {
    match e {
        Entry::Agent(k) => lit("{\"entry_type\":\"Agent\",\"entry\":") + hash_json(k) + lit("}"),
        Entry::App(b) => lit("{\"entry_type\":\"App\",\"entry\":") + quoted(bytes_hex(b@)) + lit("}"),
    }
}

/// One item of the dump: the element's signature, address, header and
/// entry, or `null` where the store lacks the element.
#[verifier::opaque]
pub open spec fn element_json(e: Option<Element>) -> Seq<u8> {
    match e {
        None => lit("{\"element\":null}"),
        Some(x) => element_fields(x),
    }
}

/// The first `m` items, separated by commas.
pub open spec fn joined(items: Seq<Seq<u8>>, m: int) -> Seq<u8>
    decreases m,
{
    if m <= 0 {
        seq![]
    } else if m == 1 {
        items[0]
    } else {
        joined(items, m - 1) + lit(",") + items[m - 1]
    }
}

/// A JSON array of the items.
pub open spec fn json_array(items: Seq<Seq<u8>>) -> Seq<u8> {
    lit("[") + joined(items, items.len() as int) + lit("]")
}

pub fn push_lit(out: &mut Vec<u8>, s: &str)
    ensures
        final(out)@ == old(out)@ + lit(s),
{
    let b = s.as_bytes();
    let mut i: usize = 0;
    while i < b.len()
        invariant
            b@ == s.spec_bytes(),
            i <= b@.len(),
            out@ == old(out)@ + b@.subrange(0, i as int),
        decreases b@.len() - i,
    {
        out.push(b[i]);
        assert(b@.subrange(0, i + 1) =~= b@.subrange(0, i as int).push(b@[i as int]));
        i = i + 1;
    }
    assert(b@.subrange(0, i as int) =~= b@);
}

fn digit_hex(d: u8) -> (r: u8)
    requires
        d < 16,
    ensures
        r == hex_char(d as nat),
{
    if d < 10 {
        48 + d
    } else {
        87 + d
    }
}

pub fn push_hex(out: &mut Vec<u8>, x: u128, n: usize)
    ensures
        final(out)@ == old(out)@ + hex_digits(x as nat, n as nat),
    decreases n,
{
    if n > 0 {
        push_hex(out, x / 16, n - 1);
        out.push(digit_hex((x % 16) as u8));
        assert(out@ =~= old(out)@ + hex_digits(x as nat, n as nat));
    } else {
        assert(out@ =~= old(out)@ + hex_digits(x as nat, n as nat));
    }
}

pub fn push_dec(out: &mut Vec<u8>, x: u64)
    ensures
        final(out)@ == old(out)@ + dec(x as nat),
    decreases x,
{
    if x >= 10 {
        push_dec(out, x / 10);
    }
    out.push(48 + (x % 10) as u8);
    assert(out@ =~= old(out)@ + dec(x as nat));
}

pub fn push_bytes_hex(out: &mut Vec<u8>, b: &Vec<u8>)
    ensures
        final(out)@ == old(out)@ + bytes_hex(b@),
{
    let mut i: usize = 0;
    while i < b.len()
        invariant
            i <= b@.len(),
            out@ == old(out)@ + bytes_hex(b@.subrange(0, i as int)),
        decreases b@.len() - i,
    {
        let ghost before = out@;
        push_hex(out, b[i] as u128, 2);
        assert(b@.subrange(0, i + 1).drop_last() =~= b@.subrange(0, i as int));
        assert(out@ =~= old(out)@ + bytes_hex(b@.subrange(0, i + 1)));
        i = i + 1;
    }
    assert(b@.subrange(0, i as int) =~= b@);
}

fn push_quoted_bytes_hex(out: &mut Vec<u8>, b: &Vec<u8>)
    ensures
        final(out)@ == old(out)@ + quoted(bytes_hex(b@)),
{
    push_lit(out, "\"");
    push_bytes_hex(out, b);
    push_lit(out, "\"");
    assert(out@ =~= old(out)@ + quoted(bytes_hex(b@)));
}

pub fn push_hash_json(out: &mut Vec<u8>, h: &HoloHash)
    ensures
        final(out)@ == old(out)@ + hash_json(*h),
{
    push_lit(out, "\"");
    push_hex(out, h.hi, 32);
    push_hex(out, h.lo, 32);
    push_lit(out, "\"");
    assert(out@ =~= old(out)@ + hash_json(*h));
}

fn push_signature_json(out: &mut Vec<u8>, s: &Signature)
    ensures
        final(out)@ == old(out)@ + signature_json(*s),
{
    push_lit(out, "\"");
    push_hex(out, s.w0, 32);
    push_hex(out, s.w1, 32);
    push_hex(out, s.w2, 32);
    push_hex(out, s.w3, 32);
    push_lit(out, "\"");
    assert(out@ =~= old(out)@ + signature_json(*s));
}

fn push_opt_hash_json(out: &mut Vec<u8>, h: &Option<HoloHash>)
    ensures
        final(out)@ == old(out)@ + opt_hash_json(*h),
{
    match h {
        None => push_lit(out, "null"),
        Some(x) => push_hash_json(out, x),
    }
}

fn push_entry_type_json(out: &mut Vec<u8>, t: EntryType)
    ensures
        final(out)@ == old(out)@ + entry_type_json(t),
{
    match t {
        EntryType::AgentPubKey => push_lit(out, "\"AgentPubKey\""),
        EntryType::App => push_lit(out, "\"App\""),
    }
}

fn push_content_json(out: &mut Vec<u8>, c: &HeaderContent)
    ensures
        final(out)@ == old(out)@ + content_json(*c),
{
    let ghost start = out@;
    match c {
        HeaderContent::Dna { hash } => {
            push_lit(out, "\"type\":\"Dna\",\"hash\":");
            push_hash_json(out, hash);
        },
        HeaderContent::AgentValidationPkg { membrane_proof } => {
            push_lit(out, "\"type\":\"AgentValidationPkg\",\"membrane_proof\":");
            match membrane_proof {
                None => push_lit(out, "null"),
                Some(p) => push_quoted_bytes_hex(out, p),
            }
        },
        HeaderContent::Create { entry_type, entry_hash } => {
            push_lit(out, "\"type\":\"Create\",\"entry_type\":");
            push_entry_type_json(out, *entry_type);
            push_lit(out, ",\"entry_hash\":");
            push_hash_json(out, entry_hash);
        },
        HeaderContent::Update { original_header_address, entry_type, entry_hash } => {
            push_lit(out, "\"type\":\"Update\",\"original_header_address\":");
            push_hash_json(out, original_header_address);
            push_lit(out, ",\"entry_type\":");
            push_entry_type_json(out, *entry_type);
            push_lit(out, ",\"entry_hash\":");
            push_hash_json(out, entry_hash);
        },
        HeaderContent::Delete { deletes_address } => {
            push_lit(out, "\"type\":\"Delete\",\"deletes_address\":");
            push_hash_json(out, deletes_address);
        },
        HeaderContent::CreateLink { base_address, target_address, tag } => {
            push_lit(out, "\"type\":\"CreateLink\",\"base_address\":");
            push_hash_json(out, base_address);
            push_lit(out, ",\"target_address\":");
            push_hash_json(out, target_address);
            push_lit(out, ",\"tag\":");
            push_quoted_bytes_hex(out, tag);
        },
        HeaderContent::DeleteLink { link_add_address, base_address } => {
            push_lit(out, "\"type\":\"DeleteLink\",\"link_add_address\":");
            push_hash_json(out, link_add_address);
            push_lit(out, ",\"base_address\":");
            push_hash_json(out, base_address);
        },
        HeaderContent::OpenChain { prev_dna_hash } => {
            push_lit(out, "\"type\":\"OpenChain\",\"prev_dna_hash\":");
            push_hash_json(out, prev_dna_hash);
        },
        HeaderContent::CloseChain { new_dna_hash } => {
            push_lit(out, "\"type\":\"CloseChain\",\"new_dna_hash\":");
            push_hash_json(out, new_dna_hash);
        },
        HeaderContent::InitZomesComplete => {
            push_lit(out, "\"type\":\"InitZomesComplete\"");
        },
    }
    assert(out@ =~= start + content_json(*c));
}

fn push_header_json(out: &mut Vec<u8>, h: &Header)
    ensures
        final(out)@ == old(out)@ + header_json(*h),
{
    push_lit(out, "{");
    push_content_json(out, &h.content);
    push_lit(out, ",\"author\":");
    push_hash_json(out, &h.author);
    push_lit(out, ",\"timestamp\":");
    push_dec(out, h.timestamp);
    push_lit(out, ",\"header_seq\":");
    push_dec(out, h.header_seq as u64);
    push_lit(out, ",\"prev_header\":");
    push_opt_hash_json(out, &h.prev_header);
    push_lit(out, "}");
    assert(out@ =~= old(out)@ + header_json(*h));
}

fn push_entry_json(out: &mut Vec<u8>, e: &Entry)
    ensures
        final(out)@ == old(out)@ + entry_json(*e),
{
    match e {
        Entry::Agent(k) => {
            push_lit(out, "{\"entry_type\":\"Agent\",\"entry\":");
            push_hash_json(out, k);
            push_lit(out, "}");
        },
        Entry::App(b) => {
            push_lit(out, "{\"entry_type\":\"App\",\"entry\":");
            push_quoted_bytes_hex(out, b);
            push_lit(out, "}");
        },
    }
    assert(out@ =~= old(out)@ + entry_json(*e));
}

/// The fields of a present element, inside the item's braces.
pub open spec fn element_fields(x: Element) -> Seq<u8> {
    lit("{\"element\":{\"signature\":") + signature_json(x.signed_header.signature) + lit(
        ",\"header_address\":",
    ) + hash_json(x.address()) + lit(",\"header\":") + header_json(x.spec_header()) + lit(",\"entry\":")
        + opt_entry_json(x) + lit("}}")
}

pub open spec fn opt_entry_json(x: Element) -> Seq<u8> {
    match x.entry {
        None => lit("null"),
        Some(en) => entry_json(en.entry),
    }
}

fn push_opt_entry_json(out: &mut Vec<u8>, x: &Element)
    ensures
        final(out)@ == old(out)@ + opt_entry_json(*x),
{
    match &x.entry {
        None => push_lit(out, "null"),
        Some(en) => push_entry_json(out, &en.entry),
    }
}

#[verifier::rlimit(30)]
fn push_element_fields(out: &mut Vec<u8>, x: &Element)
    ensures
        final(out)@ == old(out)@ + element_fields(*x),
{
    push_lit(out, "{\"element\":{\"signature\":");
    push_signature_json(out, &x.signed_header.signature);
    push_lit(out, ",\"header_address\":");
    push_hash_json(out, &x.signed_header.header_address);
    push_lit(out, ",\"header\":");
    push_header_json(out, &x.signed_header.header);
    push_lit(out, ",\"entry\":");
    push_opt_entry_json(out, x);
    push_lit(out, "}}");
    assert(out@ =~= old(out)@ + element_fields(*x));
}

/// Appends one item of the dump.
pub fn push_element_json(out: &mut Vec<u8>, e: Option<&Element>)
    ensures
        final(out)@ == old(out)@ + element_json(match e {
            Some(x) => Some(*x),
            None => None::<Element>,
        }),
{
    match e {
        None => {
            push_lit(out, "{\"element\":null}");
            assert(element_json(None) == lit("{\"element\":null}")) by {
                reveal(element_json);
            }
        },
        Some(x) => {
            push_element_fields(out, x);
            assert(element_json(Some(*x)) == element_fields(*x)) by {
                reveal(element_json);
            }
        },
    }
}

/// The display form of a content address: `0x` and 64 hexadecimal digits.
pub open spec fn hash_display(h: HoloHash) -> Seq<u8> {
    lit("0x") + hex_digits(h.hi as nat, 32) + hex_digits(h.lo as nat, 32)
}

impl HoloHash {
    /// The address as `0x` followed by its bytes in hexadecimal.
    pub fn to_string(&self) -> (r: String)
        ensures
            r@ == decode_utf8(hash_display(*self)),
    {
        let mut out: Vec<u8> = Vec::new();
        push_lit(&mut out, "0x");
        push_hex(&mut out, self.hi, 32);
        push_hex(&mut out, self.lo, 32);
        proof {
            lemma_lit_valid("0x");
            lemma_hex_valid(self.hi as nat, 32);
            lemma_hex_valid(self.lo as nat, 32);
            let s = lit("0x");
            lemma_concat_valid(s, hex_digits(self.hi as nat, 32));
            let s = s + hex_digits(self.hi as nat, 32);
            lemma_concat_valid(s, hex_digits(self.lo as nat, 32));
            assert(out@ =~= hash_display(*self));
        }
        utf8_text(out)
    }
}

/// Relies on `String::from_utf8`: bytes that are valid UTF-8 become the
/// string they encode.
#[verifier::external_body]
pub(crate) fn utf8_text(bytes: Vec<u8>) -> (r: String)
    ensures
        valid_utf8(bytes@) ==> r@ == decode_utf8(bytes@),
{
    String::from_utf8(bytes).unwrap_or_default()
}

pub open spec fn ascii(s: Seq<u8>) -> bool {
    forall|i: int| 0 <= i < s.len() ==> s[i] < 128
}

proof fn lemma_ascii_valid(s: Seq<u8>)
    requires
        ascii(s),
    ensures
        valid_utf8(s),
{
    let chars = s.map_values(|b: u8| b as char);
    assert(vstd::utf8::is_ascii_chars(chars)) by {
        assert forall|i: int| 0 <= i < chars.len() implies '\0' <= #[trigger] chars[i] <= '\u{7f}' by {
            assert(chars[i] == s[i] as char);
        }
    }
    vstd::utf8::is_ascii_chars_encode_utf8(chars);
    assert(encode_utf8(chars) =~= s);
    vstd::utf8::encode_utf8_valid_utf8(chars);
}

proof fn lemma_concat_valid(a: Seq<u8>, b: Seq<u8>)
    requires
        valid_utf8(a),
        valid_utf8(b),
    ensures
        valid_utf8(a + b),
{
    vstd::utf8::valid_utf8_concat(a, b);
}

proof fn lemma_lit_valid(s: &str)
    ensures
        valid_utf8(lit(s)),
{
    vstd::utf8::encode_utf8_valid_utf8(s@);
}

proof fn lemma_hex_ascii(x: nat, n: nat)
    ensures
        ascii(hex_digits(x, n)),
    decreases n,
{
    if n > 0 {
        lemma_hex_ascii(x / 16, (n - 1) as nat);
        let d = hex_digits(x, n);
        assert forall|i: int| 0 <= i < d.len() implies d[i] < 128 by {
            if i < d.len() - 1 {
                assert(d[i] == hex_digits(x / 16, (n - 1) as nat)[i]);
            }
        }
    }
}

proof fn lemma_dec_ascii(x: nat)
    ensures
        ascii(dec(x)),
    decreases x,
{
    if x >= 10 {
        lemma_dec_ascii(x / 10);
        let d = dec(x);
        assert forall|i: int| 0 <= i < d.len() implies d[i] < 128 by {
            if i < d.len() - 1 {
                assert(d[i] == dec(x / 10)[i]);
            }
        }
    }
}

proof fn lemma_bytes_hex_ascii(b: Seq<u8>)
    ensures
        ascii(bytes_hex(b)),
    decreases b.len(),
{
    if b.len() > 0 {
        lemma_bytes_hex_ascii(b.drop_last());
        lemma_hex_ascii(b.last() as nat, 2);
        let l = bytes_hex(b.drop_last());
        let r = hex_digits(b.last() as nat, 2);
        assert forall|i: int| 0 <= i < l.len() + r.len() implies (l + r)[i] < 128 by {
            if i < l.len() {
                assert((l + r)[i] == l[i]);
            } else {
                assert((l + r)[i] == r[i - l.len()]);
            }
        }
    }
}

proof fn lemma_quoted_valid(body: Seq<u8>)
    requires
        valid_utf8(body),
    ensures
        valid_utf8(quoted(body)),
{
    lemma_lit_valid("\"");
    lemma_concat_valid(lit("\""), body);
    lemma_concat_valid(lit("\"") + body, lit("\""));
}

proof fn lemma_hash_json_valid(h: HoloHash)
    ensures
        valid_utf8(hash_json(h)),
{
    lemma_hex_ascii(h.hi as nat, 32);
    lemma_hex_ascii(h.lo as nat, 32);
    lemma_ascii_valid(hex_digits(h.hi as nat, 32));
    lemma_ascii_valid(hex_digits(h.lo as nat, 32));
    lemma_concat_valid(hex_digits(h.hi as nat, 32), hex_digits(h.lo as nat, 32));
    lemma_quoted_valid(hex_digits(h.hi as nat, 32) + hex_digits(h.lo as nat, 32));
}

proof fn lemma_hex_valid(x: nat, n: nat)
    ensures
        valid_utf8(hex_digits(x, n)),
{
    lemma_hex_ascii(x, n);
    lemma_ascii_valid(hex_digits(x, n));
}

proof fn lemma_signature_json_valid(sig: Signature)
    ensures
        valid_utf8(signature_json(sig)),
{
    lemma_hex_valid(sig.w0 as nat, 32);
    lemma_hex_valid(sig.w1 as nat, 32);
    lemma_hex_valid(sig.w2 as nat, 32);
    lemma_hex_valid(sig.w3 as nat, 32);
    let a = hex_digits(sig.w0 as nat, 32);
    let b = hex_digits(sig.w1 as nat, 32);
    let c = hex_digits(sig.w2 as nat, 32);
    let d = hex_digits(sig.w3 as nat, 32);
    lemma_concat_valid(a, b);
    lemma_concat_valid(a + b, c);
    lemma_concat_valid(a + b + c, d);
    lemma_quoted_valid(a + b + c + d);
}

proof fn lemma_bytes_json_valid(b: Seq<u8>)
    ensures
        valid_utf8(quoted(bytes_hex(b))),
{
    lemma_bytes_hex_ascii(b);
    lemma_ascii_valid(bytes_hex(b));
    lemma_quoted_valid(bytes_hex(b));
}

proof fn lemma_dec_valid(x: nat)
    ensures
        valid_utf8(dec(x)),
{
    lemma_dec_ascii(x);
    lemma_ascii_valid(dec(x));
}

proof fn lemma_opt_hash_json_valid(h: Option<HoloHash>)
    ensures
        valid_utf8(opt_hash_json(h)),
{
    match h {
        None => lemma_lit_valid("null"),
        Some(x) => lemma_hash_json_valid(x),
    }
}

proof fn lemma_entry_type_json_valid(t: EntryType)
    ensures
        valid_utf8(entry_type_json(t)),
{
    lemma_lit_valid("\"AgentPubKey\"");
    lemma_lit_valid("\"App\"");
}

proof fn lemma_content_json_valid(c: HeaderContent)
    ensures
        valid_utf8(content_json(c)),
{
    match c {
        HeaderContent::Dna { hash } => {
            lemma_lit_valid("\"type\":\"Dna\",\"hash\":");
            lemma_hash_json_valid(hash);
            lemma_concat_valid(lit("\"type\":\"Dna\",\"hash\":"), hash_json(hash));
        },
        HeaderContent::Create { entry_type, entry_hash } => {
            lemma_lit_valid("\"type\":\"Create\",\"entry_type\":");
            lemma_entry_type_json_valid(entry_type);
            lemma_lit_valid(",\"entry_hash\":");
            lemma_hash_json_valid(entry_hash);
            let s = lit("\"type\":\"Create\",\"entry_type\":");
            lemma_concat_valid(s, entry_type_json(entry_type));
            let s = s + entry_type_json(entry_type);
            lemma_concat_valid(s, lit(",\"entry_hash\":"));
            let s = s + lit(",\"entry_hash\":");
            lemma_concat_valid(s, hash_json(entry_hash));
        },
        HeaderContent::Update { original_header_address, entry_type, entry_hash } => {
            lemma_lit_valid("\"type\":\"Update\",\"original_header_address\":");
            lemma_hash_json_valid(original_header_address);
            lemma_lit_valid(",\"entry_type\":");
            lemma_entry_type_json_valid(entry_type);
            lemma_lit_valid(",\"entry_hash\":");
            lemma_hash_json_valid(entry_hash);
            let s = lit("\"type\":\"Update\",\"original_header_address\":");
            lemma_concat_valid(s, hash_json(original_header_address));
            let s = s + hash_json(original_header_address);
            lemma_concat_valid(s, lit(",\"entry_type\":"));
            let s = s + lit(",\"entry_type\":");
            lemma_concat_valid(s, entry_type_json(entry_type));
            let s = s + entry_type_json(entry_type);
            lemma_concat_valid(s, lit(",\"entry_hash\":"));
            let s = s + lit(",\"entry_hash\":");
            lemma_concat_valid(s, hash_json(entry_hash));
        },
        HeaderContent::Delete { deletes_address } => {
            lemma_lit_valid("\"type\":\"Delete\",\"deletes_address\":");
            lemma_hash_json_valid(deletes_address);
            lemma_concat_valid(lit("\"type\":\"Delete\",\"deletes_address\":"), hash_json(deletes_address));
        },
        HeaderContent::CreateLink { base_address, target_address, tag } => {
            lemma_lit_valid("\"type\":\"CreateLink\",\"base_address\":");
            lemma_hash_json_valid(base_address);
            lemma_lit_valid(",\"target_address\":");
            lemma_hash_json_valid(target_address);
            lemma_lit_valid(",\"tag\":");
            lemma_bytes_json_valid(tag@);
            let s = lit("\"type\":\"CreateLink\",\"base_address\":");
            lemma_concat_valid(s, hash_json(base_address));
            let s = s + hash_json(base_address);
            lemma_concat_valid(s, lit(",\"target_address\":"));
            let s = s + lit(",\"target_address\":");
            lemma_concat_valid(s, hash_json(target_address));
            let s = s + hash_json(target_address);
            lemma_concat_valid(s, lit(",\"tag\":"));
            let s = s + lit(",\"tag\":");
            lemma_concat_valid(s, quoted(bytes_hex(tag@)));
        },
        HeaderContent::DeleteLink { link_add_address, base_address } => {
            lemma_lit_valid("\"type\":\"DeleteLink\",\"link_add_address\":");
            lemma_hash_json_valid(link_add_address);
            lemma_lit_valid(",\"base_address\":");
            lemma_hash_json_valid(base_address);
            let s = lit("\"type\":\"DeleteLink\",\"link_add_address\":");
            lemma_concat_valid(s, hash_json(link_add_address));
            let s = s + hash_json(link_add_address);
            lemma_concat_valid(s, lit(",\"base_address\":"));
            let s = s + lit(",\"base_address\":");
            lemma_concat_valid(s, hash_json(base_address));
        },
        HeaderContent::OpenChain { prev_dna_hash } => {
            lemma_lit_valid("\"type\":\"OpenChain\",\"prev_dna_hash\":");
            lemma_hash_json_valid(prev_dna_hash);
            lemma_concat_valid(lit("\"type\":\"OpenChain\",\"prev_dna_hash\":"), hash_json(prev_dna_hash));
        },
        HeaderContent::CloseChain { new_dna_hash } => {
            lemma_lit_valid("\"type\":\"CloseChain\",\"new_dna_hash\":");
            lemma_hash_json_valid(new_dna_hash);
            lemma_concat_valid(lit("\"type\":\"CloseChain\",\"new_dna_hash\":"), hash_json(new_dna_hash));
        },
        HeaderContent::AgentValidationPkg { membrane_proof } => {
            lemma_lit_valid("\"type\":\"AgentValidationPkg\",\"membrane_proof\":");
            lemma_lit_valid("null");
            match membrane_proof {
                None => {},
                Some(p) => lemma_bytes_json_valid(p@),
            }
            let rest = match membrane_proof {
                None => lit("null"),
                Some(p) => quoted(bytes_hex(p@)),
            };
            lemma_concat_valid(lit("\"type\":\"AgentValidationPkg\",\"membrane_proof\":"), rest);
        },
        HeaderContent::InitZomesComplete => {
            lemma_lit_valid("\"type\":\"InitZomesComplete\"");
        },
    }
}

proof fn lemma_header_json_valid(h: Header)
    ensures
        valid_utf8(header_json(h)),
{
    lemma_lit_valid("{");
    lemma_content_json_valid(h.content);
    lemma_lit_valid(",\"author\":");
    lemma_hash_json_valid(h.author);
    lemma_lit_valid(",\"timestamp\":");
    lemma_dec_valid(h.timestamp as nat);
    lemma_lit_valid(",\"header_seq\":");
    lemma_dec_valid(h.header_seq as nat);
    lemma_lit_valid(",\"prev_header\":");
    lemma_opt_hash_json_valid(h.prev_header);
    lemma_lit_valid("}");
    let s = lit("{");
    lemma_concat_valid(s, content_json(h.content));
    let s = s + content_json(h.content);
    lemma_concat_valid(s, lit(",\"author\":"));
    let s = s + lit(",\"author\":");
    lemma_concat_valid(s, hash_json(h.author));
    let s = s + hash_json(h.author);
    lemma_concat_valid(s, lit(",\"timestamp\":"));
    let s = s + lit(",\"timestamp\":");
    lemma_concat_valid(s, dec(h.timestamp as nat));
    let s = s + dec(h.timestamp as nat);
    lemma_concat_valid(s, lit(",\"header_seq\":"));
    let s = s + lit(",\"header_seq\":");
    lemma_concat_valid(s, dec(h.header_seq as nat));
    let s = s + dec(h.header_seq as nat);
    lemma_concat_valid(s, lit(",\"prev_header\":"));
    let s = s + lit(",\"prev_header\":");
    lemma_concat_valid(s, opt_hash_json(h.prev_header));
    let s = s + opt_hash_json(h.prev_header);
    lemma_concat_valid(s, lit("}"));
}

proof fn lemma_entry_json_valid(e: Entry)
    ensures
        valid_utf8(entry_json(e)),
{
    match e {
        Entry::Agent(k) => {
            lemma_lit_valid("{\"entry_type\":\"Agent\",\"entry\":");
            lemma_hash_json_valid(k);
            lemma_lit_valid("}");
            let s = lit("{\"entry_type\":\"Agent\",\"entry\":");
            lemma_concat_valid(s, hash_json(k));
            let s = s + hash_json(k);
            lemma_concat_valid(s, lit("}"));
        },
        Entry::App(b) => {
            lemma_lit_valid("{\"entry_type\":\"App\",\"entry\":");
            lemma_bytes_json_valid(b@);
            lemma_lit_valid("}");
            let s = lit("{\"entry_type\":\"App\",\"entry\":");
            lemma_concat_valid(s, quoted(bytes_hex(b@)));
            let s = s + quoted(bytes_hex(b@));
            lemma_concat_valid(s, lit("}"));
        },
    }
}

proof fn lemma_opt_entry_json_valid(x: Element)
    ensures
        valid_utf8(opt_entry_json(x)),
{
    match x.entry {
        None => lemma_lit_valid("null"),
        Some(en) => lemma_entry_json_valid(en.entry),
    }
}

proof fn lemma_element_fields_valid(x: Element)
    ensures
        valid_utf8(element_fields(x)),
{
    lemma_lit_valid("{\"element\":{\"signature\":");
    lemma_signature_json_valid(x.signed_header.signature);
    lemma_lit_valid(",\"header_address\":");
    lemma_hash_json_valid(x.address());
    lemma_lit_valid(",\"header\":");
    lemma_header_json_valid(x.spec_header());
    lemma_lit_valid(",\"entry\":");
    lemma_opt_entry_json_valid(x);
    lemma_lit_valid("}}");
    let s = lit("{\"element\":{\"signature\":");
    lemma_concat_valid(s, signature_json(x.signed_header.signature));
    let s = s + signature_json(x.signed_header.signature);
    lemma_concat_valid(s, lit(",\"header_address\":"));
    let s = s + lit(",\"header_address\":");
    lemma_concat_valid(s, hash_json(x.address()));
    let s = s + hash_json(x.address());
    lemma_concat_valid(s, lit(",\"header\":"));
    let s = s + lit(",\"header\":");
    lemma_concat_valid(s, header_json(x.spec_header()));
    let s = s + header_json(x.spec_header());
    lemma_concat_valid(s, lit(",\"entry\":"));
    let s = s + lit(",\"entry\":");
    lemma_concat_valid(s, opt_entry_json(x));
    let s = s + opt_entry_json(x);
    lemma_concat_valid(s, lit("}}"));
}

/// Every item of the dump is valid UTF-8.
pub proof fn lemma_element_json_valid(e: Option<Element>)
    ensures
        valid_utf8(element_json(e)),
{
    reveal(element_json);
    match e {
        None => lemma_lit_valid("{\"element\":null}"),
        Some(x) => lemma_element_fields_valid(x),
    }
}

proof fn lemma_joined_valid(items: Seq<Seq<u8>>, m: int)
    requires
        m <= items.len(),
        forall|i: int| 0 <= i < items.len() ==> valid_utf8(#[trigger] items[i]),
    ensures
        valid_utf8(joined(items, m)),
    decreases m,
{
    if m > 1 {
        lemma_joined_valid(items, m - 1);
        assert(valid_utf8(items[m - 1]));
        lemma_lit_valid(",");
        let s = joined(items, m - 1);
        lemma_concat_valid(s, lit(","));
        let s = s + lit(",");
        lemma_concat_valid(s, items[m - 1]);
    } else if m == 1 {
        assert(valid_utf8(items[0]));
    } else {
        lemma_ascii_valid(joined(items, m));
    }
}

/// A JSON array of valid UTF-8 items is valid UTF-8.
pub proof fn lemma_json_array_valid(items: Seq<Seq<u8>>)
    requires
        forall|i: int| 0 <= i < items.len() ==> valid_utf8(#[trigger] items[i]),
    ensures
        valid_utf8(json_array(items)),
{
    lemma_joined_valid(items, items.len() as int);
    lemma_lit_valid("[");
    lemma_lit_valid("]");
    let s = lit("[");
    lemma_concat_valid(s, joined(items, items.len() as int));
    let s = s + joined(items, items.len() as int);
    lemma_concat_valid(s, lit("]"));
}

} // verus!
