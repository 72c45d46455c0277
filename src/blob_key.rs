use vstd::prelude::*;
use vstd::string::StringExecFns;

use crate::byte_list::{lemma_list_unique, list_text, parse_list, push_list};
use crate::error::DaError;
use crate::text::{
    chars_of, decimal, lemma_decimal, lemma_number_unique, lemma_text_at_concat, match_literal,
    number_at, parse_number, push_decimal, text_at,
};

verus! {

/// The fields of a reference key.
pub struct KeyFields {
    pub id: Seq<u8>,
    pub data_root: Seq<u8>,
    pub epoch: u32,
    pub quorum_id: u32,
}

/// Reference key of a confirmed blob: the request identifier the service gave
/// the submission, with the routing metadata of its confirmation record.
#[derive(Clone, Debug)]
pub struct BlobKey {
    id: Vec<u8>,
    data_root: Vec<u8>,
    epoch: u32,
    quorum_id: u32,
}

impl View for BlobKey {
    type V = KeyFields;

    closed spec fn view(&self) -> KeyFields {
        KeyFields { id: self.id@, data_root: self.data_root@, epoch: self.epoch, quorum_id: self.quorum_id }
    }
}

pub open spec fn id_open() -> Seq<char> {
    seq!['{', '"', 'i', 'd', '"', ':']
}

pub open spec fn root_sep() -> Seq<char> {
    seq![',', '"', 'd', 'a', 't', 'a', '_', 'r', 'o', 'o', 't', '"', ':']
}

pub open spec fn epoch_sep() -> Seq<char> {
    seq![',', '"', 'e', 'p', 'o', 'c', 'h', '"', ':']
}

pub open spec fn quorum_sep() -> Seq<char> {
    seq![',', '"', 'q', 'u', 'o', 'r', 'u', 'm', '_', 'i', 'd', '"', ':']
}

pub open spec fn key_close() -> Seq<char> {
    seq!['}']
}

/// The portable text of a reference key: a JSON object with the fields in order,
/// byte sequences as arrays of numbers, e.g. `{"id":[1,2],"data_root":[3],"epoch":4,"quorum_id":0}`.
pub open spec fn key_text(k: KeyFields) -> Seq<char> {
    id_open() + list_text(k.id) + root_sep() + list_text(k.data_root) + epoch_sep() + decimal(
        k.epoch as nat,
    ) + quorum_sep() + decimal(k.quorum_id as nat) + key_close()
}

/// `t` is the text of some reference key.
pub open spec fn is_key_text(t: Seq<char>) -> bool {
    exists|k: KeyFields| key_text(k) == t
}

pub open spec fn root_sep_at(k: KeyFields) -> int {
    (id_open().len() + list_text(k.id).len()) as int
}

pub open spec fn epoch_sep_at(k: KeyFields) -> int {
    root_sep_at(k) + root_sep().len() + list_text(k.data_root).len()
}

pub open spec fn quorum_sep_at(k: KeyFields) -> int {
    epoch_sep_at(k) + epoch_sep().len() + decimal(k.epoch as nat).len()
}

pub open spec fn close_at(k: KeyFields) -> int {
    quorum_sep_at(k) + quorum_sep().len() + decimal(k.quorum_id as nat).len()
}

/// Where each part of a key's text stands.
#[verifier::rlimit(50)]
proof fn lemma_key_parts(k: KeyFields)
    ensures
        ({
            let s = key_text(k);
            &&& text_at(s, 0, id_open())
            &&& text_at(s, id_open().len() as int, list_text(k.id))
            &&& text_at(s, root_sep_at(k), root_sep())
            &&& text_at(s, root_sep_at(k) + root_sep().len(), list_text(k.data_root))
            &&& text_at(s, epoch_sep_at(k), epoch_sep())
            &&& number_at(s, epoch_sep_at(k) + epoch_sep().len(), k.epoch as nat)
            &&& text_at(s, quorum_sep_at(k), quorum_sep())
            &&& number_at(s, quorum_sep_at(k) + quorum_sep().len(), k.quorum_id as nat)
            &&& text_at(s, close_at(k), key_close())
            &&& s.len() == close_at(k) + 1
        }),
{
    let s = key_text(k);
    let a = id_open();
    let b = list_text(k.id);
    let c = root_sep();
    let d = list_text(k.data_root);
    let e = epoch_sep();
    let f = decimal(k.epoch as nat);
    let g = quorum_sep();
    let h = decimal(k.quorum_id as nat);
    let z = key_close();
    assert(s =~= (Seq::empty()) + a + (b + c + d + e + f + g + h + z));
    lemma_text_at_concat(s, Seq::empty(), a, b + c + d + e + f + g + h + z);
    assert(s =~= (a) + b + (c + d + e + f + g + h + z));
    lemma_text_at_concat(s, a, b, c + d + e + f + g + h + z);
    assert(s =~= (a + b) + c + (d + e + f + g + h + z));
    lemma_text_at_concat(s, a + b, c, d + e + f + g + h + z);
    assert(s =~= (a + b + c) + d + (e + f + g + h + z));
    lemma_text_at_concat(s, a + b + c, d, e + f + g + h + z);
    assert(s =~= (a + b + c + d) + e + (f + g + h + z));
    lemma_text_at_concat(s, a + b + c + d, e, f + g + h + z);
    assert(s =~= (a + b + c + d + e) + f + (g + h + z));
    lemma_text_at_concat(s, a + b + c + d + e, f, g + h + z);
    assert(s =~= (a + b + c + d + e + f) + g + (h + z));
    lemma_text_at_concat(s, a + b + c + d + e + f, g, h + z);
    assert(s =~= (a + b + c + d + e + f + g) + h + (z));
    lemma_text_at_concat(s, a + b + c + d + e + f + g, h, z);
    assert(s =~= (a + b + c + d + e + f + g + h) + z + (Seq::empty()));
    lemma_text_at_concat(s, a + b + c + d + e + f + g + h, z, Seq::empty());
    let qs = quorum_sep_at(k);
    let cl = close_at(k);
    assert(s[qs] == s.subrange(qs, qs + g.len())[0]);
    assert(s[cl] == s.subrange(cl, cl + 1)[0]);
}

/// Distinct reference keys have distinct texts, so a key read back from the
/// text of another key is that key.
pub proof fn lemma_key_text_injective(a: KeyFields, b: KeyFields)
    requires
        key_text(a) == key_text(b),
    ensures
        a == b,
{
    let s = key_text(a);
    lemma_key_parts(a);
    lemma_key_parts(b);
    lemma_list_unique(s, id_open().len() as int, a.id, b.id);
    lemma_list_unique(s, root_sep_at(a) + root_sep().len(), a.data_root, b.data_root);
    lemma_number_unique(s, epoch_sep_at(a) + epoch_sep().len(), a.epoch as nat, b.epoch as nat);
    lemma_number_unique(
        s,
        quorum_sep_at(a) + quorum_sep().len(),
        a.quorum_id as nat,
        b.quorum_id as nat,
    );
}

/// Reading back the text of a key gives that key: the text is a key text,
/// and the key itself is the only key it is the text of.
pub proof fn lemma_round_trip(k: KeyFields)
    ensures
        is_key_text(key_text(k)),
        forall|b: KeyFields| #[trigger] key_text(b) == key_text(k) ==> b == k,
{
    assert forall|b: KeyFields| #[trigger] key_text(b) == key_text(k) implies b == k by {
        lemma_key_text_injective(b, k);
    }
}

fn id_open_str() -> (r: &'static str)
    ensures
        r@ == id_open(),
{
    proof {
        reveal_strlit("{\"id\":");
    }
    let r = "{\"id\":";
    assert(r@ =~= id_open());
    r
}

fn root_sep_str() -> (r: &'static str)
    ensures
        r@ == root_sep(),
{
    proof {
        reveal_strlit(",\"data_root\":");
    }
    let r = ",\"data_root\":";
    assert(r@ =~= root_sep());
    r
}

fn epoch_sep_str() -> (r: &'static str)
    ensures
        r@ == epoch_sep(),
{
    proof {
        reveal_strlit(",\"epoch\":");
    }
    let r = ",\"epoch\":";
    assert(r@ =~= epoch_sep());
    r
}

fn quorum_sep_str() -> (r: &'static str)
    ensures
        r@ == quorum_sep(),
{
    proof {
        reveal_strlit(",\"quorum_id\":");
    }
    let r = ",\"quorum_id\":";
    assert(r@ =~= quorum_sep());
    r
}

fn key_close_str() -> (r: &'static str)
    ensures
        r@ == key_close(),
{
    proof {
        reveal_strlit("}");
    }
    let r = "}";
    assert(r@ =~= key_close());
    r
}

impl BlobKey {
    pub fn new(id: Vec<u8>, data_root: Vec<u8>, epoch: u32, quorum_id: u32) -> (r: BlobKey)
        ensures
            r@ == (KeyFields { id: id@, data_root: data_root@, epoch, quorum_id }),
    {
        BlobKey { id, data_root, epoch, quorum_id }
    }

    pub fn id(&self) -> (r: &Vec<u8>)
        ensures
            r@ == self@.id,
    {
        &self.id
    }

    pub fn data_root(&self) -> (r: &Vec<u8>)
        ensures
            r@ == self@.data_root,
    {
        &self.data_root
    }

    pub fn epoch(&self) -> (r: u32)
        ensures
            r == self@.epoch,
    {
        self.epoch
    }

    pub fn quorum_id(&self) -> (r: u32)
        ensures
            r == self@.quorum_id,
    {
        self.quorum_id
    }

    /// The portable text of this key.
    pub fn encode(&self) -> (r: String)
        ensures
            r@ == key_text(self@),
    {
        let mut out = String::new();
        out.append(id_open_str());
        push_list(&mut out, &self.id);
        out.append(root_sep_str());
        push_list(&mut out, &self.data_root);
        out.append(epoch_sep_str());
        push_decimal(&mut out, self.epoch);
        out.append(quorum_sep_str());
        push_decimal(&mut out, self.quorum_id);
        out.append(key_close_str());
        assert(out@ =~= key_text(self@));
        out
    }

    /// Reads a key back from its text. Any other text, including one that
    /// differs from a key's text only in spacing or in the spelling of a number,
    /// is malformed.
    pub fn decode(text: &str) -> (r: Result<BlobKey, DaError>)
        ensures
            match r {
                Ok(k) => key_text(k@) == text@,
                Err(e) => e == DaError::MalformedReferenceKey && !is_key_text(text@),
            },
    {
        let s = chars_of(text);
        let ghost hyp = is_key_text(s@);
        let ghost m = choose|m: KeyFields| key_text(m) == s@;
        proof {
            if hyp {
                lemma_key_parts(m);
                lemma_decimal(m.epoch as nat);
            }
        }
        let lit = chars_of(id_open_str());
        let p = match match_literal(&s, 0, &lit) {
            Some(e) => e,
            None => return Err(DaError::MalformedReferenceKey),
        };
        let (id, p) = match parse_list(&s, p, Ghost(m.id)) {
            Some(x) => x,
            None => return Err(DaError::MalformedReferenceKey),
        };
        let lit = chars_of(root_sep_str());
        let p = match match_literal(&s, p, &lit) {
            Some(e) => e,
            None => return Err(DaError::MalformedReferenceKey),
        };
        let (data_root, p) = match parse_list(&s, p, Ghost(m.data_root)) {
            Some(x) => x,
            None => return Err(DaError::MalformedReferenceKey),
        };
        let lit = chars_of(epoch_sep_str());
        let p = match match_literal(&s, p, &lit) {
            Some(e) => e,
            None => return Err(DaError::MalformedReferenceKey),
        };
        let (epoch, p) = match parse_number(&s, p, u32::MAX, Ghost(m.epoch as nat)) {
            Some(x) => x,
            None => return Err(DaError::MalformedReferenceKey),
        };
        let lit = chars_of(quorum_sep_str());
        let p = match match_literal(&s, p, &lit) {
            Some(e) => e,
            None => return Err(DaError::MalformedReferenceKey),
        };
        let (quorum_id, p) = match parse_number(&s, p, u32::MAX, Ghost(m.quorum_id as nat)) {
            Some(x) => x,
            None => return Err(DaError::MalformedReferenceKey),
        };
        let lit = chars_of(key_close_str());
        let p = match match_literal(&s, p, &lit) {
            Some(e) => e,
            None => return Err(DaError::MalformedReferenceKey),
        };
        if p != s.len() {
            return Err(DaError::MalformedReferenceKey);
        }
        let key = BlobKey { id, data_root, epoch, quorum_id };
        let written = key.encode();
        let given = text.to_owned();
        if written == given {
            Ok(key)
        } else {
            proof {
                if hyp {
                    assert(key@ == m);
                }
            }
            Err(DaError::MalformedReferenceKey)
        }
    }
}

} // verus!
