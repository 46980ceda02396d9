//! Host keys the user has trusted, and the verdict on a key a server presents.
use vstd::prelude::*;
use crate::local_path::{join_path, path_joined};
use crate::text::{owned, same_text};

verus! {

/// A trusted host key.
pub struct KnownHostEntry {
    pub host: String,
    pub port: u16,
    pub key_algorithm: String,
    pub public_key: String,
    pub fingerprint_sha256: String,
}

impl KnownHostEntry {
    /// A copy of this entry.
    pub fn duplicate(&self) -> (r: KnownHostEntry)
        ensures
            r == *self,
    {
        KnownHostEntry {
            host: self.host.clone(),
            port: self.port,
            key_algorithm: self.key_algorithm.clone(),
            public_key: self.public_key.clone(),
            fingerprint_sha256: self.fingerprint_sha256.clone(),
        }
    }
}

/// The verdict on a presented host key.
pub enum TrustCheck {
    /// No key is stored for the host and port.
    Unknown,
    /// The stored key is the presented one.
    Verified(KnownHostEntry),
    /// A different key is stored.
    Mismatch(KnownHostEntry),
}

/// Where the trusted host keys are kept.
pub struct TrustModel {
    pub known_hosts_path: String,
}

impl TrustModel {
    /// The trust store kept in `known_hosts.json` under `base_dir`.
    pub fn new(base_dir: &str) -> (r: TrustModel)
        ensures
            r.known_hosts_path@ == path_joined(base_dir@, "known_hosts.json"@),
    {
        TrustModel { known_hosts_path: join_path(base_dir, "known_hosts.json") }
    }
}

/// The first entry of `entries` for `host` at `port`.
pub open spec fn lookup(entries: Seq<KnownHostEntry>, host: Seq<char>, port: u16) -> Option<KnownHostEntry>
    decreases entries.len(),
{
    if entries.len() == 0 {
        None
    } else if entries[0].host@ == host && entries[0].port == port {
        Some(entries[0])
    } else {
        lookup(entries.drop_first(), host, port)
    }
}

/// The verdict on `public_key` (in OpenSSH text form) presented by `host` at `port`.
pub open spec fn verdict(entries: Seq<KnownHostEntry>, host: Seq<char>, port: u16, public_key: Seq<char>) -> TrustCheck {
    match lookup(entries, host, port) {
        None => TrustCheck::Unknown,
        Some(e) => if e.public_key@ == public_key { TrustCheck::Verified(e) } else { TrustCheck::Mismatch(e) },
    }
}

proof fn lemma_lookup_step(entries: Seq<KnownHostEntry>, i: int, host: Seq<char>, port: u16)
    requires
        0 <= i < entries.len(),
    ensures
        lookup(entries.skip(i), host, port) == (if entries[i].host@ == host && entries[i].port == port {
            Some(entries[i])
        } else {
            lookup(entries.skip(i + 1), host, port)
        }),
{
    assert(entries.skip(i).drop_first() =~= entries.skip(i + 1));
    assert(entries.skip(i)[0] == entries[i]);
}

/// Judges `public_key` (in OpenSSH text form) presented by `host` at `port` against
/// the stored `entries`.
pub fn check_host(entries: &Vec<KnownHostEntry>, host: &str, port: u16, public_key: &str) -> (r: TrustCheck)
    ensures
        r == verdict(entries@, host@, port, public_key@),
{
    let mut i: usize = 0;
    assert(entries@.skip(0) =~= entries@);
    while i < entries.len()
        invariant
            i <= entries.len(),
            lookup(entries@, host@, port) == lookup(entries@.skip(i as int), host@, port),
        decreases entries.len() - i,
    {
        let e = &entries[i];
        proof {
            lemma_lookup_step(entries@, i as int, host@, port);
        }
        if same_text(e.host.as_str(), host) && e.port == port {
            if same_text(e.public_key.as_str(), public_key) {
                return TrustCheck::Verified(e.duplicate());
            } else {
                return TrustCheck::Mismatch(e.duplicate());
            }
        }
        i += 1;
    }
    assert(entries@.skip(i as int).len() == 0);
    TrustCheck::Unknown
}

/// An entry stays when it is not for `host` at `port`.
pub open spec fn kept_entry(e: KnownHostEntry, host: Seq<char>, port: u16) -> bool {
    !(e.host@ == host && e.port == port)
}

/// `entries` without those for `host` at `port`, in order.
pub open spec fn without(entries: Seq<KnownHostEntry>, host: Seq<char>, port: u16) -> Seq<KnownHostEntry>
    decreases entries.len(),
{
    if entries.len() == 0 {
        entries
    } else if kept_entry(entries[0], host, port) {
        seq![entries[0]] + without(entries.drop_first(), host, port)
    } else {
        without(entries.drop_first(), host, port)
    }
}

/// The stored entries after trusting `entry`: every entry for its host and port is
/// dropped and it is added at the end.
pub open spec fn remembered(entries: Seq<KnownHostEntry>, entry: KnownHostEntry) -> Seq<KnownHostEntry> {
    without(entries, entry.host@, entry.port).push(entry)
}

proof fn lemma_without_append(a: Seq<KnownHostEntry>, b: Seq<KnownHostEntry>, host: Seq<char>, port: u16)
    ensures
        without(a + b, host, port) == without(a, host, port) + without(b, host, port),
    decreases a.len(),
{
    if a.len() == 0 {
        assert(a + b =~= b);
        assert(without(a, host, port) + without(b, host, port) =~= without(b, host, port));
    } else {
        assert((a + b).drop_first() =~= a.drop_first() + b);
        assert((a + b)[0] == a[0]);
        lemma_without_append(a.drop_first(), b, host, port);
        if kept_entry(a[0], host, port) {
            assert(seq![a[0]] + without(a.drop_first(), host, port) + without(b, host, port)
                =~= seq![a[0]] + (without(a.drop_first(), host, port) + without(b, host, port)));
        }
    }
}

proof fn lemma_lookup_append(a: Seq<KnownHostEntry>, b: Seq<KnownHostEntry>, host: Seq<char>, port: u16)
    ensures
        lookup(a + b, host, port) == (match lookup(a, host, port) {
            Some(e) => Some(e),
            None => lookup(b, host, port),
        }),
    decreases a.len(),
{
    if a.len() == 0 {
        assert(a + b =~= b);
    } else {
        assert((a + b).drop_first() =~= a.drop_first() + b);
        assert((a + b)[0] == a[0]);
        lemma_lookup_append(a.drop_first(), b, host, port);
    }
}

proof fn lemma_lookup_without(entries: Seq<KnownHostEntry>, dh: Seq<char>, dp: u16, host: Seq<char>, port: u16)
    ensures
        lookup(without(entries, dh, dp), host, port)
            == (if host == dh && port == dp { None } else { lookup(entries, host, port) }),
    decreases entries.len(),
{
    if entries.len() > 0 {
        lemma_lookup_without(entries.drop_first(), dh, dp, host, port);
        if kept_entry(entries[0], dh, dp) {
            let w = seq![entries[0]] + without(entries.drop_first(), dh, dp);
            assert(w[0] == entries[0]);
            assert(w.drop_first() =~= without(entries.drop_first(), dh, dp));
        }
    }
}

/// Trusts `entry`: replaces whatever was stored for its host and port.
pub fn remember_entry(entries: Vec<KnownHostEntry>, entry: KnownHostEntry) -> (r: Vec<KnownHostEntry>)
    ensures
        r@ == remembered(entries@, entry),
{
    let ghost start = entries@;
    let mut rest = entries;
    let mut kept: Vec<KnownHostEntry> = Vec::new();
    let mut i: usize = 0;
    assert(start.len() == rest.len());
    assert(start.take(0) =~= Seq::<KnownHostEntry>::empty());
    while rest.len() > 0
        invariant
            i + rest@.len() == start.len(),
            start.len() <= usize::MAX,
            rest@ =~= start.subrange(i as int, start.len() as int),
            kept@ == without(start.take(i as int), entry.host@, entry.port),
        decreases rest.len(),
    {
        let e = rest.remove(0);
        proof {
            assert(e == start[i as int]);
            assert(start.take(i + 1) =~= start.take(i as int) + seq![e]);
            lemma_without_append(start.take(i as int), seq![e], entry.host@, entry.port);
            let single = seq![e];
            assert(single[0] == e);
            assert(single.drop_first() =~= Seq::<KnownHostEntry>::empty());
            assert(without(Seq::<KnownHostEntry>::empty(), entry.host@, entry.port) == Seq::<KnownHostEntry>::empty());
            assert(seq![e] + Seq::<KnownHostEntry>::empty() =~= seq![e]);
        }
        if !(same_text(e.host.as_str(), entry.host.as_str()) && e.port == entry.port) {
            kept.push(e);
            assert(kept@ =~= without(start.take(i as int), entry.host@, entry.port) + seq![e]);
        } else {
            assert(without(start.take(i as int), entry.host@, entry.port) + Seq::<KnownHostEntry>::empty()
                =~= without(start.take(i as int), entry.host@, entry.port));
        }
        i += 1;
        assert(rest@ =~= start.subrange(i as int, start.len() as int));
    }
    assert(start.take(start.len() as int) =~= start);
    kept.push(entry);
    kept
}

/// Trusting a key and then judging that key from the same host and port verifies
/// it, with the stored entry being the one just trusted.
pub proof fn lemma_remember_then_verify(entries: Seq<KnownHostEntry>, entry: KnownHostEntry)
    ensures
        verdict(remembered(entries, entry), entry.host@, entry.port, entry.public_key@)
            == TrustCheck::Verified(entry),
{
    let w = without(entries, entry.host@, entry.port);
    assert(w.push(entry) =~= w + seq![entry]);
    lemma_lookup_append(w, seq![entry], entry.host@, entry.port);
    lemma_lookup_without(entries, entry.host@, entry.port, entry.host@, entry.port);
    assert(seq![entry][0] == entry);
}

/// Trusting a key and then judging a different key from the same host and port
/// reports a mismatch against the key just trusted.
pub proof fn lemma_remember_then_mismatch(entries: Seq<KnownHostEntry>, entry: KnownHostEntry, other_key: Seq<char>)
    requires
        other_key != entry.public_key@,
    ensures
        verdict(remembered(entries, entry), entry.host@, entry.port, other_key) == TrustCheck::Mismatch(entry),
{
    lemma_remember_then_verify(entries, entry);
}

/// Trusting a key for one host and port leaves the verdict on every other host and
/// port as it was.
pub proof fn lemma_remember_keeps_other_hosts(entries: Seq<KnownHostEntry>, entry: KnownHostEntry, host: Seq<char>, port: u16, key: Seq<char>)
    requires
        !(host == entry.host@ && port == entry.port),
    ensures
        verdict(remembered(entries, entry), host, port, key) == verdict(entries, host, port, key),
{
    let w = without(entries, entry.host@, entry.port);
    assert(w.push(entry) =~= w + seq![entry]);
    lemma_lookup_append(w, seq![entry], host, port);
    lemma_lookup_without(entries, entry.host@, entry.port, host, port);
    let single = seq![entry];
    assert(single[0] == entry);
    assert(single.drop_first() =~= Seq::<KnownHostEntry>::empty());
    assert(lookup(Seq::<KnownHostEntry>::empty(), host, port) is None);
    assert(lookup(single, host, port) is None);
}

/// The entry to store for a key presented by `host` at `port`.
pub fn entry_for_key(host: &str, port: u16, key_algorithm: String, public_key: String, fingerprint_sha256: String) -> (r: KnownHostEntry)
    ensures
        r.host@ == host@,
        r.port == port,
        r.key_algorithm == key_algorithm,
        r.public_key == public_key,
        r.fingerprint_sha256 == fingerprint_sha256,
{
    KnownHostEntry { host: owned(host), port, key_algorithm, public_key, fingerprint_sha256 }
}

/// A connection that checks the stored keys goes on only with a verified key.
pub open spec fn stored_key_accepted(c: TrustCheck) -> bool {
    c is Verified
}

/// Whether the verdict on a presented key lets a connection that checks the
/// stored keys go on.
pub fn accepts_stored_key(c: &TrustCheck) -> (r: bool)
    ensures
        r == stored_key_accepted(*c),
{
    match c {
        TrustCheck::Verified(_) => true,
        _ => false,
    }
}

/// The trust-state line shown for a connected session, from the verdict on its key.
pub open spec fn trust_state_text(c: TrustCheck) -> Seq<char> {
    match c {
        TrustCheck::Verified(_) => "Known host verified"@,
        TrustCheck::Unknown => "Trusted this session"@,
        TrustCheck::Mismatch(_) => "Host key mismatch"@,
    }
}

/// The trust-state line shown for a connected session.
pub fn trust_state_label(c: &TrustCheck) -> (r: String)
    ensures
        r@ == trust_state_text(*c),
{
    match c {
        TrustCheck::Verified(_) => owned("Known host verified"),
        TrustCheck::Unknown => owned("Trusted this session"),
        TrustCheck::Mismatch(_) => owned("Host key mismatch"),
    }
}

} // verus!
