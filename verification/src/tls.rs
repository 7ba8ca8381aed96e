//! TLS identity material: PEM decoding, certificate-chain and private-key
//! selection, and the per-port identity stores queried during a handshake.
//!
//! The caller reads a site's certificate and key files and hands their bytes
//! in; decoding one PEM section at a time is delegated to an outside parser,
//! while the selection of the certificate chain and of the first usable
//! private key — and every identity lookup by server name — is verified
//! here.  A port cannot open without a valid identity, so any decoding
//! failure is answered with an error that the caller must treat as fatal for
//! that port's worker at startup.

use vstd::prelude::*;

use crate::registry::VirtualHostMap;
use crate::text::{bytes_eq, copy_bytes};

verus! {

/// One decoded PEM section, reduced to what the server uses.
#[derive(Debug)]
pub enum PemEntry {
    /// A DER-encoded X.509 certificate.
    Certificate(Vec<u8>),
    /// A DER-encoded RSA private key (PKCS#1).
    RsaKey(Vec<u8>),
    /// A DER-encoded private key (PKCS#8).
    Pkcs8Key(Vec<u8>),
    /// Any other recognized section, which the server ignores.
    Other,
}

/// The mathematical value of a decoded PEM section.
pub ghost enum PemEntryView {
    Certificate(Seq<u8>),
    RsaKey(Seq<u8>),
    Pkcs8Key(Seq<u8>),
    Other,
}

impl View for PemEntry {
    type V = PemEntryView;

    open spec fn view(&self) -> PemEntryView {
        match self {
            PemEntry::Certificate(d) => PemEntryView::Certificate(d@),
            PemEntry::RsaKey(d) => PemEntryView::RsaKey(d@),
            PemEntry::Pkcs8Key(d) => PemEntryView::Pkcs8Key(d@),
            PemEntry::Other => PemEntryView::Other,
        }
    }
}

/// What PEM decoding finds at the head of `input`: a decode failure, the end
/// of the input without a further section, or one decoded section together
/// with the bytes that follow it.  Decoding is a function of the input bytes
/// alone.
pub uninterp spec fn pem_next_of(input: Seq<u8>) -> Option<Option<(PemEntryView, Seq<u8>)>>;

/// Relies on `rustls_pemfile::read_one_from_slice`: it decodes the next PEM
/// section of the slice from its begin marker through its end marker, a
/// function of the input bytes alone, and returns the remainder of the
/// slice, which is strictly shorter than the input because a decoded
/// section's marker lines are consumed.
#[verifier::external_body]
fn pem_next(input: &[u8]) -> (r: Option<Option<(PemEntry, Vec<u8>)>>)
    ensures
        match r {
            None => pem_next_of(input@) is None,
            Some(None) => pem_next_of(input@) == Some(None::<(PemEntryView, Seq<u8>)>),
            Some(Some((e, rest))) => pem_next_of(input@) == Some(Some((e@, rest@)))
                && rest@.len() < input@.len(),
        },
{
    match rustls_pemfile::read_one_from_slice(input) {
        Err(_) => None,
        Ok(None) => Some(None),
        Ok(Some((item, rest))) => {
            let entry = match item {
                rustls_pemfile::Item::X509Certificate(c) => PemEntry::Certificate(c.as_ref().to_vec()),
                rustls_pemfile::Item::Pkcs1Key(k) => PemEntry::RsaKey(k.secret_pkcs1_der().to_vec()),
                rustls_pemfile::Item::Pkcs8Key(k) => PemEntry::Pkcs8Key(k.secret_pkcs8_der().to_vec()),
                _ => PemEntry::Other,
            };
            Some(Some((entry, rest.to_vec())))
        },
    }
}

/// All sections decoded from `input`, in order; `None` when any section is
/// malformed.
pub open spec fn spec_pem_items(input: Seq<u8>) -> Option<Seq<PemEntryView>>
    decreases input.len(),
{
    match pem_next_of(input) {
        None => None,
        Some(None) => Some(Seq::empty()),
        Some(Some((e, rest))) => if rest.len() < input.len() {
            match spec_pem_items(rest) {
                Some(items) => Some(seq![e] + items),
                None => None,
            }
        } else {
            None
        },
    }
}

/// Decodes all PEM sections of `input`, refusing the whole input when any
/// section is malformed.
pub fn pem_items(input: &[u8]) -> (r: Option<Vec<PemEntry>>)
    ensures
        match r {
            Some(items) => spec_pem_items(input@) == Some(items@.map_values(|e: PemEntry| e@)),
            None => spec_pem_items(input@) is None,
        },
{
    let mut items: Vec<PemEntry> = Vec::new();
    let mut rest: Vec<u8> = copy_bytes_from_slice(input);
    proof {
        assert(items@.map_values(|e: PemEntry| e@) + spec_pem_items(input@)->Some_0
            =~= spec_pem_items(input@)->Some_0);
    }
    loop
        invariant
            match spec_pem_items(rest@) {
                Some(tail) => spec_pem_items(input@) == Some(
                    items@.map_values(|e: PemEntry| e@) + tail,
                ),
                None => spec_pem_items(input@) is None,
            },
        decreases rest@.len(),
    {
        match pem_next(rest.as_slice()) {
            None => {
                return None;
            },
            Some(None) => {
                proof {
                    assert(spec_pem_items(rest@) == Some(Seq::<PemEntryView>::empty()));
                    assert(items@.map_values(|e: PemEntry| e@) + Seq::<PemEntryView>::empty()
                        =~= items@.map_values(|e: PemEntry| e@));
                }
                return Some(items);
            },
            Some(Some((entry, next_rest))) => {
                let ghost old_items = items@;
                let ghost old_rest = rest@;
                items.push(entry);
                proof {
                    assert(items@.map_values(|e: PemEntry| e@) =~= old_items.map_values(
                        |e: PemEntry| e@,
                    ).push(spec_pem_items_head(old_rest)));
                    match spec_pem_items(next_rest@) {
                        Some(tail) => {
                            assert(spec_pem_items(old_rest) == Some(
                                seq![spec_pem_items_head(old_rest)] + tail,
                            ));
                            assert(old_items.map_values(|e: PemEntry| e@) + (seq![
                                spec_pem_items_head(old_rest)] + tail) =~= items@.map_values(
                                |e: PemEntry| e@,
                            ) + tail);
                        },
                        None => {
                            assert(spec_pem_items(old_rest) is None);
                        },
                    }
                }
                rest = next_rest;
            },
        }
    }
}

/// The section that PEM decoding finds first, assuming one is found.
pub open spec fn spec_pem_items_head(input: Seq<u8>) -> PemEntryView {
    pem_next_of(input)->Some_0->Some_0.0
}

/// Copies a byte slice into a fresh vector.
fn copy_bytes_from_slice(s: &[u8]) -> (r: Vec<u8>)
    ensures
        r@ == s@,
{
    vstd::slice::slice_to_vec(s)
}

/// The certificates among the decoded sections, in order.
pub open spec fn spec_certs(items: Seq<PemEntryView>) -> Seq<Seq<u8>>
    decreases items.len(),
{
    if items.len() == 0 {
        Seq::empty()
    } else {
        let rest = spec_certs(items.drop_first());
        match items[0] {
            PemEntryView::Certificate(d) => seq![d] + rest,
            _ => rest,
        }
    }
}

/// The first RSA or PKCS#8 private key among the decoded sections.
pub open spec fn spec_first_key(items: Seq<PemEntryView>) -> Option<PemEntryView>
    decreases items.len(),
{
    if items.len() == 0 {
        None
    } else {
        match items[0] {
            PemEntryView::RsaKey(d) => Some(PemEntryView::RsaKey(d)),
            PemEntryView::Pkcs8Key(d) => Some(PemEntryView::Pkcs8Key(d)),
            _ => spec_first_key(items.drop_first()),
        }
    }
}

/// Collects the certificates among the decoded sections, in order.
pub fn certs_of(items: &Vec<PemEntry>) -> (r: Vec<Vec<u8>>)
    ensures
        r@.map_values(|c: Vec<u8>| c@) == spec_certs(items@.map_values(|e: PemEntry| e@)),
{
    let ghost all = items@.map_values(|e: PemEntry| e@);
    let mut r: Vec<Vec<u8>> = Vec::new();
    let mut i: usize = 0;
    proof {
        assert(all.skip(0) =~= all);
        assert(r@.map_values(|c: Vec<u8>| c@) + spec_certs(all) =~= spec_certs(all));
    }
    while i < items.len()
        invariant
            i <= items@.len(),
            all == items@.map_values(|e: PemEntry| e@),
            spec_certs(all) == r@.map_values(|c: Vec<u8>| c@) + spec_certs(all.skip(i as int)),
        decreases items@.len() - i,
    {
        proof {
            assert(all.skip(i as int)[0] == all[i as int]);
            assert(all.skip(i as int).drop_first() =~= all.skip(i as int + 1));
        }
        match &items[i] {
            PemEntry::Certificate(d) => {
                let ghost old_r = r@;
                let c = copy_bytes(d);
                r.push(c);
                proof {
                    assert(r@.map_values(|c: Vec<u8>| c@) =~= old_r.map_values(|c: Vec<u8>| c@)
                        .push(d@));
                    assert(old_r.map_values(|c: Vec<u8>| c@) + (seq![d@] + spec_certs(
                        all.skip(i as int + 1),
                    )) =~= r@.map_values(|c: Vec<u8>| c@) + spec_certs(all.skip(i as int + 1)));
                }
            },
            _ => {},
        }
        i += 1;
    }
    proof {
        assert(all.skip(i as int).len() == 0);
        assert(r@.map_values(|c: Vec<u8>| c@) + Seq::<Seq<u8>>::empty() =~= r@.map_values(
            |c: Vec<u8>| c@,
        ));
    }
    r
}

/// Finds the first RSA or PKCS#8 private key among the decoded sections.
pub fn first_key_of(items: &Vec<PemEntry>) -> (r: Option<PemEntry>)
    ensures
        match r {
            Some(k) => spec_first_key(items@.map_values(|e: PemEntry| e@)) == Some(k@),
            None => spec_first_key(items@.map_values(|e: PemEntry| e@)) is None,
        },
{
    let ghost all = items@.map_values(|e: PemEntry| e@);
    proof {
        assert(all.skip(0) =~= all);
    }
    let mut i: usize = 0;
    while i < items.len()
        invariant
            i <= items@.len(),
            all == items@.map_values(|e: PemEntry| e@),
            spec_first_key(all) == spec_first_key(all.skip(i as int)),
        decreases items@.len() - i,
    {
        proof {
            assert(all.skip(i as int)[0] == all[i as int]);
            assert(all.skip(i as int).drop_first() =~= all.skip(i as int + 1));
        }
        match &items[i] {
            PemEntry::RsaKey(d) => {
                return Some(PemEntry::RsaKey(copy_bytes(d)));
            },
            PemEntry::Pkcs8Key(d) => {
                return Some(PemEntry::Pkcs8Key(copy_bytes(d)));
            },
            _ => {},
        }
        i += 1;
    }
    proof {
        assert(all.skip(i as int).len() == 0);
    }
    None
}

/// Why an identity could not be built; each is fatal for the port at
/// startup.
#[derive(Debug, PartialEq, Eq, Clone, Copy)]
pub enum IdentityError {
    /// The certificate file's PEM could not be decoded.
    CertificatesUnreadable,
    /// The private-key file's PEM could not be decoded.
    KeyUnreadable,
    /// The key file held no RSA or PKCS#8 private key.
    NoKey,
}

/// One TLS identity: a certificate chain and the private key that goes with
/// it.
#[derive(Debug)]
pub struct TlsIdentity {
    pub certs: Vec<Vec<u8>>,
    pub key: PemEntry,
}

/// What identity building answers on given certificate and key bytes: the
/// certificate chain and first key, or nothing when either file is
/// malformed or no key is present.
pub open spec fn spec_identity(cert_pem: Seq<u8>, key_pem: Seq<u8>) -> Option<(
    Seq<Seq<u8>>,
    PemEntryView,
)> {
    match spec_pem_items(cert_pem) {
        None => None,
        Some(ci) => match spec_pem_items(key_pem) {
            None => None,
            Some(ki) => match spec_first_key(ki) {
                None => None,
                Some(k) => Some((spec_certs(ci), k)),
            },
        },
    }
}

/// The error identity building reports when it answers nothing.
pub open spec fn spec_identity_error(cert_pem: Seq<u8>, key_pem: Seq<u8>) -> IdentityError {
    if spec_pem_items(cert_pem) is None {
        IdentityError::CertificatesUnreadable
    } else if spec_pem_items(key_pem) is None {
        IdentityError::KeyUnreadable
    } else {
        IdentityError::NoKey
    }
}

/// Builds one TLS identity from the bytes of a certificate file and a key
/// file; fails exactly when either file's PEM is malformed or no usable key
/// is present.
pub fn identity_from_pem(cert_pem: &[u8], key_pem: &[u8]) -> (r: Result<TlsIdentity, IdentityError>)
    ensures
        match r {
            Ok(id) => spec_identity(cert_pem@, key_pem@) matches Some((cs, k)) && id.certs@
                .map_values(|c: Vec<u8>| c@) == cs && id.key@ == k,
            Err(e) => spec_identity(cert_pem@, key_pem@) is None && e == spec_identity_error(
                cert_pem@,
                key_pem@,
            ),
        },
{
    let cert_items = match pem_items(cert_pem) {
        Some(items) => items,
        None => {
            return Err(IdentityError::CertificatesUnreadable);
        },
    };
    let key_items = match pem_items(key_pem) {
        Some(items) => items,
        None => {
            return Err(IdentityError::KeyUnreadable);
        },
    };
    let key = match first_key_of(&key_items) {
        Some(k) => k,
        None => {
            return Err(IdentityError::NoKey);
        },
    };
    let certs = certs_of(&cert_items);
    Ok(TlsIdentity { certs, key })
}

/// One virtual host's identity, keyed by the server name a TLS client
/// presents.
#[derive(Debug)]
pub struct SniEntry {
    pub name: String,
    pub identity: TlsIdentity,
}

/// The identities of one shared port, queried by server name during each
/// handshake.
#[derive(Debug)]
pub struct SniStore {
    pub entries: Vec<SniEntry>,
}

impl SniStore {
    /// Finds the identity for a presented server name.  A name matching no
    /// entry answers nothing, and the handshake fails: no default identity
    /// is substituted.
    pub fn resolve(&self, server_name: &[u8]) -> (r: Option<usize>)
        ensures
            match r {
                Some(k) => {
                    &&& (k as int) < self.entries.len()
                    &&& crate::text::utf8_bytes(self.entries[k as int].name@) == server_name@
                    &&& forall|l: int|
                        0 <= l < k ==> crate::text::utf8_bytes(
                            (#[trigger] self.entries[l]).name@,
                        ) != server_name@
                },
                None => forall|l: int|
                    0 <= l < self.entries.len() ==> crate::text::utf8_bytes(
                        (#[trigger] self.entries[l]).name@,
                    ) != server_name@,
            },
    {
        let mut k: usize = 0;
        while k < self.entries.len()
            invariant
                k <= self.entries.len(),
                forall|l: int|
                    0 <= l < k ==> crate::text::utf8_bytes(
                        (#[trigger] self.entries[l]).name@,
                    ) != server_name@,
            decreases self.entries.len() - k,
        {
            if bytes_eq(self.entries[k].name.as_str().as_bytes(), server_name) {
                return Some(k);
            }
            k += 1;
        }
        None
    }
}

/// Builds the identity store of one shared port from the virtual-host map
/// and the bytes of each member's certificate and key files, handed in the
/// map's order.  The first member whose identity cannot be built fails the
/// whole port, reported with that member's position.
pub fn build_sni_store(map: &VirtualHostMap, pems: &Vec<(Vec<u8>, Vec<u8>)>) -> (r: Result<
    SniStore,
    (usize, IdentityError),
>)
    requires
        pems@.len() == map.entries@.len(),
    ensures
        match r {
            Ok(store) => {
                &&& store.entries@.len() == map.entries@.len()
                &&& forall|k: int|
                    0 <= k < store.entries@.len() ==> {
                        &&& (#[trigger] store.entries@[k]).name@ == map.entries@[k].name@
                        &&& spec_identity(pems@[k].0@, pems@[k].1@) matches Some((cs, key))
                            && store.entries@[k].identity.certs@.map_values(|c: Vec<u8>| c@) == cs
                            && store.entries@[k].identity.key@ == key
                    }
            },
            Err((k, e)) => {
                &&& (k as int) < map.entries@.len()
                &&& spec_identity(pems@[k as int].0@, pems@[k as int].1@) is None
                &&& e == spec_identity_error(pems@[k as int].0@, pems@[k as int].1@)
                &&& forall|l: int|
                    0 <= l < k ==> spec_identity(
                        (#[trigger] pems@[l]).0@,
                        pems@[l].1@,
                    ) is Some
            },
        },
{
    let mut entries: Vec<SniEntry> = Vec::new();
    let mut k: usize = 0;
    while k < pems.len()
        invariant
            k <= pems@.len(),
            pems@.len() == map.entries@.len(),
            entries@.len() == k,
            forall|l: int|
                0 <= l < k ==> {
                    &&& (#[trigger] entries@[l]).name@ == map.entries@[l].name@
                    &&& spec_identity(pems@[l].0@, pems@[l].1@) matches Some((cs, key))
                        && entries@[l].identity.certs@.map_values(|c: Vec<u8>| c@) == cs
                        && entries@[l].identity.key@ == key
                },
        decreases pems@.len() - k,
    {
        let identity = match identity_from_pem(pems[k].0.as_slice(), pems[k].1.as_slice()) {
            Ok(id) => id,
            Err(e) => {
                proof {
                    assert forall|l: int| 0 <= l < k implies spec_identity(
                        (#[trigger] pems@[l]).0@,
                        pems@[l].1@,
                    ) is Some by {
                        assert((#[trigger] entries@[l]).name@ == map.entries@[l].name@);
                    }
                }
                return Err((k, e));
            },
        };
        entries.push(SniEntry { name: map.entries[k].name.clone(), identity });
        k += 1;
    }
    Ok(SniStore { entries })
}

} // verus!
