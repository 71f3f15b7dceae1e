use vstd::prelude::*;
use crate::bytes::copy_bytes;
use crate::cipher::{aead_open, aead_seal, cipher_limit, derive_key, derived_key_of, random_bytes, sealed_of};
use crate::codec::{fits, join, join_fields, join_size, split_fields, views};
use crate::document::SealedSection;
use crate::sessions::{SessionEntry, SessionRecord, SessionTable, ids_unique, keys_match, records_of};

verus! {

/// The cryptographic state: an optional local identity key and the sessions.
#[derive(Clone, Debug, PartialEq, Eq)]
pub struct CryptoSection {
    pub identity_key: Option<Vec<u8>>,
    pub sessions: SessionTable,
}

/// Why a crypto section could not be sealed or opened.
#[derive(Clone, Copy, Debug, PartialEq, Eq, Structural)]
pub enum VaultError {
    /// The passphrase does not unlock the section.
    AuthenticationFailed,
    /// The stored section is malformed or was altered.
    IntegrityFailure,
    /// The decrypted sessions repeat an identifier.
    CorruptState,
    /// The section is too large to be stored.
    TooLarge,
    /// The passphrase is longer than the key derivation accepts.
    PassphraseTooLong,
    /// No random salt or nonce could be drawn.
    RandomnessUnavailable,
    /// The cipher refused to encrypt.
    EncryptionFailed,
}

pub open spec fn record_view(r: SessionRecord) -> (Seq<u8>, Seq<u8>) {
    (r.id@, r.state@)
}

/// What a crypto section holds, as plain values.
pub open spec fn section_view(c: CryptoSection) -> (Option<Seq<u8>>, Seq<(Seq<u8>, Seq<u8>)>) {
    (
        match c.identity_key {
            Some(k) => Some(k@),
            None => None,
        },
        c.sessions.records@.map_values(|r: SessionRecord| record_view(r)),
    )
}

/// The three fields of each stored session, in order: the key it is filed
/// under, the record's identifier and the record's state.
pub open spec fn entry_fields(es: Seq<SessionEntry>) -> Seq<Seq<u8>>
    decreases es.len(),
{
    if es.len() == 0 {
        Seq::empty()
    } else {
        entry_fields(es.drop_last()).push(es.last().key@).push(es.last().record.id@).push(
            es.last().record.state@,
        )
    }
}

/// A session filed under its own identifier.
pub open spec fn filed(r: SessionRecord) -> SessionEntry {
    SessionEntry { key: r.id, record: r }
}

pub open spec fn filed_entries(rs: Seq<SessionRecord>) -> Seq<SessionEntry> {
    rs.map_values(|r: SessionRecord| filed(r))
}

pub open spec fn key_view(k: Option<Vec<u8>>) -> Option<Seq<u8>> {
    match k {
        Some(v) => Some(v@),
        None => None,
    }
}

/// Stored fields: a flag for the identity key, the key if present, then the
/// fields of each session entry.
pub open spec fn layout(k: Option<Seq<u8>>, es: Seq<SessionEntry>) -> Seq<Seq<u8>> {
    match k {
        Some(key) => seq![seq![1u8], key] + entry_fields(es),
        None => seq![seq![0u8]] + entry_fields(es),
    }
}

/// The fields a crypto section is stored as, each session filed under its
/// identifier.
pub open spec fn section_fields(c: CryptoSection) -> Seq<Seq<u8>> {
    layout(key_view(c.identity_key), filed_entries(c.sessions.records@))
}

/// Stored fields that lay out session entries which form no table: an entry
/// filed under a key that is not its record's identifier, or a repeated
/// identifier.
pub open spec fn corrupt_layout(vs: Seq<Seq<u8>>) -> bool {
    exists|k: Option<Seq<u8>>, es: Seq<SessionEntry>|
        #[trigger] layout(k, es) == vs && !(keys_match(es) && ids_unique(records_of(es)))
}

/// The plaintext a crypto section is encrypted from.
pub open spec fn section_bytes(c: CryptoSection) -> Seq<u8> {
    join(section_fields(c))
}

pub open spec fn triples_match(es: Seq<SessionEntry>, vs: Seq<Seq<u8>>) -> bool {
    &&& vs.len() == 3 * es.len()
    &&& forall|j: int|
        0 <= j < es.len() ==> {
            &&& vs[3 * j] == (#[trigger] es[j]).key@
            &&& vs[3 * j + 1] == es[j].record.id@
            &&& vs[3 * j + 2] == es[j].record.state@
        }
}

proof fn lemma_entry_fields(es: Seq<SessionEntry>)
    ensures
        triples_match(es, entry_fields(es)),
    decreases es.len(),
{
    if es.len() > 0 {
        let p = es.drop_last();
        lemma_entry_fields(p);
        assert forall|j: int| 0 <= j < es.len() implies {
            &&& entry_fields(es)[3 * j] == (#[trigger] es[j]).key@
            &&& entry_fields(es)[3 * j + 1] == es[j].record.id@
            &&& entry_fields(es)[3 * j + 2] == es[j].record.state@
        } by {
            if j < es.len() - 1 {
                assert(p[j] == es[j]);
            }
        }
    }
}

proof fn lemma_triples(es: Seq<SessionEntry>, vs: Seq<Seq<u8>>)
    ensures
        triples_match(es, vs) <==> vs == entry_fields(es),
{
    lemma_entry_fields(es);
    if triples_match(es, vs) {
        assert forall|k: int| 0 <= k < vs.len() implies vs[k] == entry_fields(es)[k] by {
            let j = k / 3;
            let m = es.len() as int;
            assert(0 <= j < m && k == 3 * j + k % 3 && 0 <= k % 3 < 3) by (nonlinear_arith)
                requires
                    0 <= k < 3 * m,
                    j == k / 3,
            ;
            let e = es[j];
            let ef = entry_fields(es);
            assert(vs[3 * j] == e.key@ && ef[3 * j] == e.key@);
            assert(vs[3 * j + 1] == e.record.id@ && ef[3 * j + 1] == e.record.id@);
            assert(vs[3 * j + 2] == e.record.state@ && ef[3 * j + 2] == e.record.state@);
        }
        assert(vs =~= entry_fields(es));
    }
}

fn encode_section(c: &CryptoSection) -> (r: Vec<Vec<u8>>)
    ensures
        views(r@) == section_fields(*c),
{
    let mut r: Vec<Vec<u8>> = Vec::new();
    match &c.identity_key {
        Some(k) => {
            let mut flag: Vec<u8> = Vec::new();
            flag.push(1u8);
            assert(flag@ =~= seq![1u8]);
            r.push(flag);
            r.push(copy_bytes(k));
            assert(views(r@) =~= seq![seq![1u8], k@]);
        },
        None => {
            let mut flag: Vec<u8> = Vec::new();
            flag.push(0u8);
            assert(flag@ =~= seq![0u8]);
            r.push(flag);
            assert(views(r@) =~= seq![seq![0u8]]);
        },
    }
    let ghost head = views(r@);
    let ghost fe = filed_entries(c.sessions.records@);
    assert(head + entry_fields(fe) =~= section_fields(*c));
    assert(fe.take(0) =~= Seq::<SessionEntry>::empty());
    let rs = &c.sessions.records;
    let mut i: usize = 0;
    while i < rs.len()
        invariant
            0 <= i <= rs@.len(),
            fe == filed_entries(rs@),
            views(r@) == head + entry_fields(fe.take(i as int)),
            head + entry_fields(fe) == section_fields(*c),
            *rs == c.sessions.records,
        decreases rs@.len() - i,
    {
        proof {
            assert(fe.take(i + 1).drop_last() =~= fe.take(i as int));
            assert(fe.take(i + 1).last() == filed(rs@[i as int]));
        }
        let ghost before = r@;
        r.push(copy_bytes(&rs[i].id));
        r.push(copy_bytes(&rs[i].id));
        r.push(copy_bytes(&rs[i].state));
        proof {
            assert(views(r@) =~= views(before).push(rs@[i as int].id@).push(rs@[i as int].id@).push(
                rs@[i as int].state@,
            ));
            assert(views(r@) =~= head + entry_fields(fe.take(i + 1)));
        }
        i = i + 1;
    }
    assert(fe.take(rs@.len() as int) =~= fe);
    r
}

proof fn lemma_same_views_unique(a: Seq<SessionRecord>, b: Seq<SessionRecord>)
    requires
        a.len() == b.len(),
        forall|j: int| 0 <= j < a.len() ==> #[trigger] a[j].id@ == b[j].id@,
        ids_unique(a),
    ensures
        ids_unique(b),
{
    assert forall|i: int, j: int| 0 <= i < j < b.len() implies b[i].id@ != b[j].id@ by {
        assert(a[i].id@ == b[i].id@);
        assert(a[j].id@ == b[j].id@);
    }
}

fn collect_entries(fs: &Vec<Vec<u8>>, start: usize) -> (r: Vec<SessionEntry>)
    requires
        start <= fs@.len(),
        (fs@.len() - start) % 3 == 0,
    ensures
        triples_match(r@, views(fs@).subrange(start as int, fs@.len() as int)),
{
    let n = fs.len();
    let mut entries: Vec<SessionEntry> = Vec::new();
    let mut i: usize = start;
    while i < n
        invariant
            start <= i <= n,
            n == fs@.len(),
            (n - start) % 3 == 0,
            (i - start) % 3 == 0,
            entries@.len() * 3 == i - start,
            forall|j: int|
                0 <= j < entries@.len() ==> {
                    &&& (#[trigger] entries@[j]).key@ == fs@[start + 3 * j]@
                    &&& entries@[j].record.id@ == fs@[start + 3 * j + 1]@
                    &&& entries@[j].record.state@ == fs@[start + 3 * j + 2]@
                },
        decreases n - i,
    {
        let e = SessionEntry {
            key: copy_bytes(&fs[i]),
            record: SessionRecord { id: copy_bytes(&fs[i + 1]), state: copy_bytes(&fs[i + 2]) },
        };
        entries.push(e);
        i = i + 3;
    }
    proof {
        let tail = views(fs@).subrange(start as int, n as int);
        assert forall|j: int| 0 <= j < entries@.len() implies {
            &&& tail[3 * j] == (#[trigger] entries@[j]).key@
            &&& tail[3 * j + 1] == entries@[j].record.id@
            &&& tail[3 * j + 2] == entries@[j].record.state@
        } by {
            assert(entries@[j].key@ == fs@[start + 3 * j]@);
        }
    }
    entries
}

/// Rebuilds a crypto section from its stored fields.
fn decode_section(fs: &Vec<Vec<u8>>) -> (r: Result<CryptoSection, VaultError>)
    ensures
        r matches Ok(d) ==> d.sessions.wf() && section_fields(d) == views(fs@),
        r matches Err(e) ==> e == VaultError::IntegrityFailure || e == VaultError::CorruptState,
        r == Err::<CryptoSection, VaultError>(VaultError::CorruptState) ==> corrupt_layout(views(fs@)),
        forall|c: CryptoSection|
            #[trigger] section_fields(c) == views(fs@) && c.sessions.wf() ==> (r matches Ok(d)
                && section_view(d) == section_view(c)),
{
    let ghost vs = views(fs@);
    let n = fs.len();
    if n == 0 {
        proof {
            assert forall|c: CryptoSection| #[trigger] section_fields(c) == vs implies false by {
                assert(section_fields(c).len() >= 1);
            }
        }
        return Err(VaultError::IntegrityFailure);
    }
    if fs[0].len() != 1 {
        proof {
            assert forall|c: CryptoSection| #[trigger] section_fields(c) == vs implies false by {
                assert(section_fields(c)[0].len() == 1);
                assert(vs[0] == fs@[0]@);
            }
        }
        return Err(VaultError::IntegrityFailure);
    }
    let flag = fs[0][0];
    proof {
        assert(vs[0] == fs@[0]@);
        assert(vs[0] =~= seq![flag]);
    }
    let key: Option<Vec<u8>>;
    let start: usize;
    if flag == 1 {
        if n < 2 {
            proof {
                assert forall|c: CryptoSection| #[trigger] section_fields(c) == vs implies false by {
                    assert(section_fields(c)[0][0] == 1u8 ==> section_fields(c).len() >= 2);
                }
            }
            return Err(VaultError::IntegrityFailure);
        }
        key = Some(copy_bytes(&fs[1]));
        start = 2;
        assert(vs[1] == fs@[1]@);
    } else if flag == 0 {
        key = None;
        start = 1;
    } else {
        proof {
            assert forall|c: CryptoSection| #[trigger] section_fields(c) == vs implies false by {
                assert(section_fields(c)[0][0] == 0u8 || section_fields(c)[0][0] == 1u8);
            }
        }
        return Err(VaultError::IntegrityFailure);
    }
    let ghost head = vs.subrange(0, start as int);
    let ghost tail = vs.subrange(start as int, n as int);
    proof {
        assert(vs =~= head + tail);
        if flag == 1 {
            assert(head =~= seq![seq![1u8], vs[1]]);
        } else {
            assert(head =~= seq![seq![0u8]]);
        }
        assert forall|c: CryptoSection| #[trigger] section_fields(c) == vs implies tail == entry_fields(
            filed_entries(c.sessions.records@),
        ) by {
            if flag == 1 {
                assert(section_fields(c)[0][0] == 1u8);
                assert(c.identity_key is Some);
            } else {
                assert(section_fields(c)[0][0] == 0u8);
                assert(c.identity_key is None);
            }
            assert(tail =~= section_fields(c).subrange(start as int, n as int));
        }
    }
    if (n - start) % 3 != 0 {
        proof {
            assert forall|c: CryptoSection| #[trigger] section_fields(c) == vs implies false by {
                lemma_entry_fields(filed_entries(c.sessions.records@));
            }
        }
        return Err(VaultError::IntegrityFailure);
    }
    let entries = collect_entries(fs, start);
    let ghost ents = entries@;
    let ghost rs = records_of(entries@);
    proof {
        lemma_triples(ents, tail);
        assert(layout(key_view(key), ents) =~= vs);
    }
    match SessionTable::from_entries(entries) {
        Ok(t) => {
            let d = CryptoSection { identity_key: key, sessions: t };
            proof {
                let fd = filed_entries(rs);
                assert(triples_match(fd, tail)) by {
                    assert forall|j: int| 0 <= j < fd.len() implies {
                        &&& tail[3 * j] == (#[trigger] fd[j]).key@
                        &&& tail[3 * j + 1] == fd[j].record.id@
                        &&& tail[3 * j + 2] == fd[j].record.state@
                    } by {
                        assert(ents[j].key@ == ents[j].record.id@);
                        assert(rs[j] == ents[j].record);
                    }
                }
                lemma_triples(fd, tail);
                assert(section_fields(d) =~= vs);
                assert forall|c: CryptoSection| #[trigger] section_fields(c) == vs && c.sessions.wf()
                    implies section_view(d) == section_view(c) by {
                    let fc = filed_entries(c.sessions.records@);
                    lemma_triples(fc, tail);
                    assert forall|j: int| 0 <= j < rs.len() implies record_view(rs[j]) == record_view(
                        c.sessions.records@[j],
                    ) by {
                        assert(ents[j].record.id@ == tail[3 * j + 1]);
                        assert(fc[j].record.id@ == tail[3 * j + 1]);
                        assert(fc[j] == filed(c.sessions.records@[j]));
                    }
                    if flag == 1 {
                        assert(section_fields(c)[1] == vs[1]);
                    }
                    assert(section_view(d).1 =~= section_view(c).1);
                }
            }
            Ok(d)
        },
        Err(_) => {
            proof {
                assert(corrupt_layout(vs));
                assert forall|c: CryptoSection| #[trigger] section_fields(c) == vs && c.sessions.wf()
                    implies false by {
                    let fc = filed_entries(c.sessions.records@);
                    lemma_triples(fc, tail);
                    assert forall|j: int| 0 <= j < rs.len() implies #[trigger] c.sessions.records@[j].id@
                        == rs[j].id@ by {
                        assert(ents[j].record.id@ == tail[3 * j + 1]);
                        assert(fc[j].record.id@ == tail[3 * j + 1]);
                        assert(fc[j] == filed(c.sessions.records@[j]));
                    }
                    assert forall|j: int| 0 <= j < ents.len() implies #[trigger] ents[j].key@
                        == ents[j].record.id@ by {
                        assert(ents[j].key@ == tail[3 * j]);
                        assert(fc[j].key@ == tail[3 * j]);
                        assert(fc[j] == filed(c.sessions.records@[j]));
                    }
                    lemma_same_views_unique(c.sessions.records@, rs);
                }
            }
            Err(VaultError::CorruptState)
        },
    }
}

/// `s` is what sealing `c` under the passphrase `pass` stores.
pub open spec fn seals(s: SealedSection, c: CryptoSection, pass: Seq<u8>) -> bool {
    let key = derived_key_of(pass, s.salt@);
    &&& passphrase_fits(pass)
    &&& s.salt@.len() == 16
    &&& s.check_nonce@.len() == 12
    &&& s.nonce@.len() == 12
    &&& s.check@ == sealed_of(key, s.check_nonce@, Seq::empty())
    &&& fits(section_fields(c))
    &&& section_bytes(c).len() < cipher_limit()
    &&& s.ciphertext@ == sealed_of(key, s.nonce@, section_bytes(c))
}

pub open spec fn passphrase_fits(pass: Seq<u8>) -> bool {
    pass.len() <= 4294967295
}

/// A section that can be stored: its fields fit behind their lengths and its
/// plaintext fits in memory and under the cipher's limit.
pub open spec fn storable(c: CryptoSection) -> bool {
    &&& fits(section_fields(c))
    &&& section_bytes(c).len() <= usize::MAX
    &&& section_bytes(c).len() < cipher_limit()
}

/// Encrypts a crypto section under a passphrase with the given salt and
/// nonces.
pub fn seal_with(
    c: &CryptoSection,
    pass: &Vec<u8>,
    salt: Vec<u8>,
    check_nonce: Vec<u8>,
    nonce: Vec<u8>,
) -> (r: Result<SealedSection, VaultError>)
    requires
        salt@.len() == 16,
        check_nonce@.len() == 12,
        nonce@.len() == 12,
    ensures
        r is Ok <==> passphrase_fits(pass@) && storable(*c),
        r matches Ok(s) ==> s.salt@ == salt@ && s.check_nonce@ == check_nonce@ && s.nonce@ == nonce@
            && seals(s, *c, pass@),
        r == Err::<SealedSection, VaultError>(VaultError::PassphraseTooLong) <==> !passphrase_fits(pass@),
        r == Err::<SealedSection, VaultError>(VaultError::TooLarge) <==> (passphrase_fits(pass@)
            && !storable(*c)),
{
    if pass.len() > 4294967295 {
        return Err(VaultError::PassphraseTooLong);
    }
    let fields = encode_section(c);
    let size = match join_size(&fields) {
        Some(n) => n,
        None => {
            return Err(VaultError::TooLarge);
        },
    };
    if size as u64 >= 274877906880u64 {
        return Err(VaultError::TooLarge);
    }
    let plain = join_fields(&fields);
    let key = derive_key(pass, &salt);
    let empty: Vec<u8> = Vec::new();
    assert(empty@ =~= Seq::<u8>::empty());
    let check = match aead_seal(&key, &check_nonce, &empty) {
        Some(v) => v,
        None => {
            return Err(VaultError::EncryptionFailed);
        },
    };
    let ciphertext = match aead_seal(&key, &nonce, &plain) {
        Some(v) => v,
        None => {
            return Err(VaultError::EncryptionFailed);
        },
    };
    Ok(SealedSection { salt, check_nonce, check, nonce, ciphertext })
}

/// Encrypts a crypto section under a passphrase, with a fresh random salt
/// and fresh nonces.
pub fn seal(c: &CryptoSection, pass: &Vec<u8>) -> (r: Result<SealedSection, VaultError>)
    ensures
        r matches Ok(s) ==> seals(s, *c, pass@),
        r == Err::<SealedSection, VaultError>(VaultError::PassphraseTooLong) <==> !passphrase_fits(pass@),
        r == Err::<SealedSection, VaultError>(VaultError::TooLarge) <==> (passphrase_fits(pass@)
            && !storable(*c)),
        r matches Err(e) ==> e == VaultError::PassphraseTooLong || e == VaultError::TooLarge || e
            == VaultError::RandomnessUnavailable,
{
    let salt = match random_bytes(16) {
        Some(v) => v,
        None => {
            return seal_refused(c, pass);
        },
    };
    let check_nonce = match random_bytes(12) {
        Some(v) => v,
        None => {
            return seal_refused(c, pass);
        },
    };
    let nonce = match random_bytes(12) {
        Some(v) => v,
        None => {
            return seal_refused(c, pass);
        },
    };
    seal_with(c, pass, salt, check_nonce, nonce)
}

/// The error of a seal that drew no randomness: the library's own errors
/// first, then the missing randomness.
fn seal_refused(c: &CryptoSection, pass: &Vec<u8>) -> (r: Result<SealedSection, VaultError>)
    ensures
        r is Err,
        r == Err::<SealedSection, VaultError>(VaultError::PassphraseTooLong) <==> !passphrase_fits(pass@),
        r == Err::<SealedSection, VaultError>(VaultError::TooLarge) <==> (passphrase_fits(pass@)
            && !storable(*c)),
        r matches Err(e) ==> e == VaultError::PassphraseTooLong || e == VaultError::TooLarge || e
            == VaultError::RandomnessUnavailable,
{
    if pass.len() > 4294967295 {
        return Err(VaultError::PassphraseTooLong);
    }
    let fields = encode_section(c);
    match join_size(&fields) {
        Some(n) => {
            if n as u64 >= 274877906880u64 {
                Err(VaultError::TooLarge)
            } else {
                Err(VaultError::RandomnessUnavailable)
            }
        },
        None => Err(VaultError::TooLarge),
    }
}

/// The salt and nonces of `s` have lengths that a sealed section can have.
pub open spec fn well_formed(s: SealedSection) -> bool {
    &&& 8 <= s.salt@.len() <= 4294967295
    &&& s.check_nonce@.len() == 12
    &&& s.nonce@.len() == 12
}

/// `sealed` is the encryption of some message under `key` and `nonce`.
pub open spec fn opens(key: Seq<u8>, nonce: Seq<u8>, sealed: Seq<u8>) -> bool {
    exists|q: Seq<u8>| q.len() < cipher_limit() && #[trigger] sealed_of(key, nonce, q) == sealed
}

/// `sealed` is the encryption of stored fields whose session entries form
/// no table.
pub open spec fn opens_to_corrupt(key: Seq<u8>, nonce: Seq<u8>, sealed: Seq<u8>) -> bool {
    exists|q: Seq<u8>, fs: Seq<Seq<u8>>|
        q.len() < cipher_limit() && #[trigger] sealed_of(key, nonce, q) == sealed && #[trigger] join(fs)
            == q && fits(fs) && corrupt_layout(fs)
}

/// Decrypts a stored crypto section with a passphrase.
///
/// Whatever `seal` stored for a section opens, under the same passphrase, to
/// a section that holds the same identity key and the same sessions in the
/// same order. A passphrase whose key does not open the check message is
/// refused as such; a ciphertext that does not open is an integrity failure;
/// a corrupt state is reported only for a ciphertext that opens to sessions
/// that form no table.
pub fn open(s: &SealedSection, pass: &Vec<u8>) -> (r: Result<CryptoSection, VaultError>)
    ensures
        forall|c: CryptoSection|
            #[trigger] seals(*s, c, pass@) && c.sessions.wf() ==> (r matches Ok(d) && section_view(d)
                == section_view(c)),
        r matches Ok(d) ==> d.sessions.wf() && s.ciphertext@ == sealed_of(
            derived_key_of(pass@, s.salt@),
            s.nonce@,
            section_bytes(d),
        ),
        r == Err::<CryptoSection, VaultError>(VaultError::PassphraseTooLong) <==> !passphrase_fits(pass@),
        passphrase_fits(pass@) && !well_formed(*s) ==> r == Err::<CryptoSection, VaultError>(
            VaultError::IntegrityFailure,
        ),
        r == Err::<CryptoSection, VaultError>(VaultError::AuthenticationFailed) <==> (passphrase_fits(
            pass@,
        ) && well_formed(*s) && !opens(derived_key_of(pass@, s.salt@), s.check_nonce@, s.check@)),
        passphrase_fits(pass@) && well_formed(*s) && opens(
            derived_key_of(pass@, s.salt@),
            s.check_nonce@,
            s.check@,
        ) && !opens(derived_key_of(pass@, s.salt@), s.nonce@, s.ciphertext@) ==> r == Err::<
            CryptoSection,
            VaultError,
        >(VaultError::IntegrityFailure),
        r == Err::<CryptoSection, VaultError>(VaultError::CorruptState) ==> opens_to_corrupt(
            derived_key_of(pass@, s.salt@),
            s.nonce@,
            s.ciphertext@,
        ),
        r matches Err(e) ==> e == VaultError::PassphraseTooLong || e == VaultError::AuthenticationFailed
            || e == VaultError::IntegrityFailure || e == VaultError::CorruptState,
{
    if pass.len() > 4294967295 {
        return Err(VaultError::PassphraseTooLong);
    }
    if s.salt.len() < 8 || s.salt.len() > 4294967295 || s.check_nonce.len() != 12 || s.nonce.len() != 12 {
        return Err(VaultError::IntegrityFailure);
    }
    let key = derive_key(pass, &s.salt);
    match aead_open(&key, &s.check_nonce, &s.check) {
        None => {
            proof {
                assert forall|c: CryptoSection| #[trigger] seals(*s, c, pass@) implies false by {
                    assert(Seq::<u8>::empty().len() < cipher_limit());
                }
            }
            return Err(VaultError::AuthenticationFailed);
        },
        Some(p) => {
            assert(opens(key@, s.check_nonce@, s.check@)) by {
                assert(sealed_of(key@, s.check_nonce@, p@) == s.check@);
            }
        },
    }
    let plain = match aead_open(&key, &s.nonce, &s.ciphertext) {
        Some(p) => p,
        None => {
            proof {
                assert forall|c: CryptoSection| #[trigger] seals(*s, c, pass@) implies false by {
                    assert(sealed_of(key@, s.nonce@, section_bytes(c)) == s.ciphertext@);
                }
            }
            return Err(VaultError::IntegrityFailure);
        },
    };
    let fields = match split_fields(&plain) {
        Some(f) => f,
        None => {
            proof {
                assert forall|c: CryptoSection| #[trigger] seals(*s, c, pass@) implies false by {
                    assert(sealed_of(key@, s.nonce@, section_bytes(c)) == s.ciphertext@);
                    assert(section_bytes(c) == plain@);
                    assert(join(section_fields(c)) == plain@ && fits(section_fields(c)));
                }
            }
            return Err(VaultError::IntegrityFailure);
        },
    };
    proof {
        assert forall|c: CryptoSection| #[trigger] seals(*s, c, pass@) implies section_fields(c) == views(
            fields@,
        ) by {
            assert(sealed_of(key@, s.nonce@, section_bytes(c)) == s.ciphertext@);
            assert(section_bytes(c) == plain@);
            assert(join(section_fields(c)) == plain@ && fits(section_fields(c)));
        }
    }
    let r = decode_section(&fields);
    proof {
        if r == Err::<CryptoSection, VaultError>(VaultError::CorruptState) {
            assert(sealed_of(key@, s.nonce@, plain@) == s.ciphertext@);
            assert(join(views(fields@)) == plain@);
        }
    }
    r
}

} // verus!
