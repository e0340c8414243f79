//! The registry itself: the id allocator, the certificate store, the account
//! index and the write/read operations over them, with their invariants.

use vstd::prelude::*;

use crate::index::{
    ids_in, lemma_ids_in_absent, lemma_ids_in_at, lemma_ids_in_congruent, lemma_ids_in_entry,
    lemma_ids_in_push_new, lemma_ids_in_push_other, lemma_ids_in_update_other, unique_accounts,
    AccountRecord,
};
use crate::types::{Certificate, CertificateData, Config, Error, Event};

verus! {

/// The records named by `ids`, in order, skipping any id that does not
/// resolve in `certs` — the defensive filter of the account query. Under
/// [`Pallet::wf`] every id resolves and nothing is skipped.
pub open spec fn resolve_certs(certs: Seq<Certificate>, ids: Seq<u64>) -> Seq<CertificateData>
    decreases ids.len(),
{
    if ids.len() == 0 {
        Seq::empty()
    } else {
        let rest = resolve_certs(certs, ids.drop_last());
        if ids.last() < certs.len() {
            rest.push(certs[ids.last() as int]@)
        } else {
            rest
        }
    }
}

/// When every id resolves, the defensive filter drops nothing: the result
/// lists exactly the named records, in order.
pub proof fn lemma_resolve_certs_total(certs: Seq<Certificate>, ids: Seq<u64>)
    requires
        forall|k: int| 0 <= k < ids.len() ==> (#[trigger] ids[k]) < certs.len(),
    ensures
        resolve_certs(certs, ids).len() == ids.len(),
        forall|k: int|
            0 <= k < ids.len() ==> resolve_certs(certs, ids)[k] == certs[(#[trigger] ids[k]) as int]@,
    decreases ids.len(),
{
    if ids.len() > 0 {
        lemma_resolve_certs_total(certs, ids.drop_last());
        assert forall|k: int|
            0 <= k < ids.len() implies resolve_certs(certs, ids)[k] == certs[(
        #[trigger] ids[k]) as int]@ by {
            if k < ids.len() - 1 {
                assert(ids.drop_last()[k] == ids[k]);
                assert(resolve_certs(certs, ids)[k] == resolve_certs(certs, ids.drop_last())[k]);
            } else {
                assert(ids.last() == ids[k]);
            }
        }
    }
}

/// The credential registry: a single-writer state machine. Writes either
/// commit in full or leave the state untouched; reads are pure.
///
/// Certificate ids are allocated densely from 0, so the store is a vector
/// indexed by id; [`Pallet::wf`] ties the allocator's counter to it.
#[derive(Debug)]
pub struct Pallet {
    /// The configured capacity bounds.
    pub config: Config,
    /// The id allocator's counter: the next unused certificate id.
    pub certificate_count: u64,
    /// The certificate store; the record with id `i` stands at position `i`.
    pub certificates: Vec<Certificate>,
    /// The account index, one entry per account that owns a certificate.
    pub account_certificates: Vec<AccountRecord>,
    /// The event log, in operation order.
    pub events: Vec<Event>,
}

impl Pallet {
    /// The certificate records as mathematical values, in id order.
    pub open spec fn certs(self) -> Seq<CertificateData> {
        self.certificates.deep_view()
    }

    /// The ids recorded for `account` in the index, in issuance order.
    pub open spec fn account_ids(self, account: u64) -> Seq<u64> {
        ids_in(self.account_certificates@, account)
    }

    /// The record issued under `cert_id`, if any.
    pub open spec fn spec_get(self, cert_id: u64) -> Option<CertificateData> {
        if cert_id < self.certs().len() {
            Some(self.certs()[cert_id as int])
        } else {
            None
        }
    }

    /// Whether `cert_id` names a certificate that is valid at `height`:
    /// issued, not revoked, and not yet expired. Expiry is strict — a
    /// certificate is already invalid at the height equal to `expires_at`.
    pub open spec fn spec_is_valid(self, cert_id: u64, height: u64) -> bool {
        match self.spec_get(cert_id) {
            Some(cert) => !cert.revoked && (cert.expires_at == 0 || cert.expires_at > height),
            None => false,
        }
    }

    /// Whether the index can take one more id for `account`.
    pub open spec fn account_has_room(self, account: u64) -> bool {
        self.account_ids(account).len() < self.config.max_account_certificates
    }

    /// Well-formedness of the registry state.
    pub open spec fn wf(self) -> bool {
        let certs = self.certificates@;
        let entries = self.account_certificates@;
        // The allocator's counter is the number of issued certificates.
        &&& self.certificate_count == certs.len()
        // Each record carries the id it is stored under.
        &&& forall|i: int| 0 <= i < certs.len() ==> (#[trigger] certs[i]).id == i
        // Metadata respects the configured bound.
        &&& forall|i: int|
            0 <= i < certs.len() ==> (#[trigger] certs[i]).metadata@.len()
                <= self.config.max_metadata_length
        // The index has one entry per account, each within its bound.
        &&& unique_accounts(entries)
        &&& forall|j: int|
            0 <= j < entries.len() ==> (#[trigger] entries[j]).ids@.len()
                <= self.config.max_account_certificates
        // Every indexed id resolves to a record owned by that account.
        &&& forall|j: int, k: int|
            #![trigger entries[j].ids@[k]]
            0 <= j < entries.len() && 0 <= k < entries[j].ids@.len() ==> {
                let id = entries[j].ids@[k];
                &&& id < certs.len()
                &&& certs[id as int].owner == entries[j].account
            }
        // Every record's id is indexed under its owner.
        &&& forall|i: int|
            0 <= i < certs.len() ==> ids_in(entries, (#[trigger] certs[i]).owner).contains(i as u64)
        // Each entry lists its ids in issuance order.
        &&& forall|j: int, k1: int, k2: int|
            #![trigger entries[j].ids@[k1], entries[j].ids@[k2]]
            0 <= j < entries.len() && 0 <= k1 < k2 < entries[j].ids@.len()
                ==> entries[j].ids@[k1] < entries[j].ids@[k2]
    }

    /// An empty registry with the given bounds.
    pub fn new(config: Config) -> (r: Pallet)
        ensures
            r.wf(),
            r.config == config,
            r.certificate_count == 0,
            r.certs() == Seq::<CertificateData>::empty(),
            forall|a: u64| r.account_ids(a) == Seq::<u64>::empty(),
            r.events@ == Seq::<Event>::empty(),
    {
        let r = Pallet {
            config,
            certificate_count: 0,
            certificates: Vec::new(),
            account_certificates: Vec::new(),
            events: Vec::new(),
        };
        proof {
            assert(r.certs() =~= Seq::<CertificateData>::empty());
        }
        r
    }

    /// The id allocator: returns the current counter value and advances it,
    /// or reports exhaustion when advancing would overflow. Once it succeeds
    /// the advance is committed — no id is ever handed out twice.
    pub fn next_certificate_id(&mut self) -> (r: Result<u64, Error>)
        ensures
            old(self).certificate_count == u64::MAX ==> r == Err::<u64, Error>(
                Error::CertificateAlreadyExists,
            ) && *final(self) == *old(self),
            old(self).certificate_count < u64::MAX ==> r == Ok::<u64, Error>(
                old(self).certificate_count,
            ) && *final(self) == (Pallet {
                certificate_count: (old(self).certificate_count + 1) as u64,
                ..*old(self)
            }),
    {
        if self.certificate_count == u64::MAX {
            return Err(Error::CertificateAlreadyExists);
        }
        let id = self.certificate_count;
        self.certificate_count = self.certificate_count + 1;
        Ok(id)
    }

    /// Position of the index entry for `account`, if one exists; the first
    /// match is the entry [`Pallet::account_ids`] speaks of.
    fn find_account(&self, account: u64) -> (r: Option<usize>)
        ensures
            match r {
                Some(j) => {
                    &&& j < self.account_certificates@.len()
                    &&& self.account_certificates@[j as int].account == account
                    &&& forall|j2: int|
                        0 <= j2 < j ==> (#[trigger] self.account_certificates@[j2]).account
                            != account
                },
                None => forall|j2: int|
                    0 <= j2 < self.account_certificates@.len() ==> (
                    #[trigger] self.account_certificates@[j2]).account != account,
            },
    {
        let n = self.account_certificates.len();
        let mut j: usize = 0;
        while j < n
            invariant
                n == self.account_certificates@.len(),
                j <= n,
                forall|j2: int|
                    0 <= j2 < j ==> (#[trigger] self.account_certificates@[j2]).account != account,
            decreases n - j,
        {
            if self.account_certificates[j].account == account {
                return Some(j);
            }
            j = j + 1;
        }
        None
    }

    /// The record issued under `cert_id`, if any. Reads never fail: an
    /// unknown id yields `None`.
    pub fn get_certificate(&self, cert_id: u64) -> (r: Option<&Certificate>)
        ensures
            match r {
                Some(c) => self.spec_get(cert_id) == Some(c@),
                None => self.spec_get(cert_id) is None,
            },
    {
        if cert_id < self.certificates.len() as u64 {
            Some(&self.certificates[cert_id as usize])
        } else {
            None
        }
    }

    /// Whether `cert_id` names a certificate that is valid at
    /// `current_height`: issued, not revoked, and not expired. An unknown id
    /// yields `false`, never an error. The expiry comparison is strict: a
    /// certificate with `expires_at == E > 0` is valid at every height below
    /// `E` and invalid at `E` and above; `expires_at == 0` never expires.
    pub fn is_certificate_valid(&self, cert_id: u64, current_height: u64) -> (r: bool)
        ensures
            r == self.spec_is_valid(cert_id, current_height),
    {
        if cert_id >= self.certificates.len() as u64 {
            return false;
        }
        let cert = &self.certificates[cert_id as usize];
        !cert.revoked && (cert.expires_at == 0 || cert.expires_at > current_height)
    }

    /// The certificate records issued to `account`, in issuance order: one
    /// record for every id in its index entry that still resolves in the
    /// store. Reads never fail — an unknown account yields an empty result —
    /// and under [`Pallet::wf`] the defensive filter drops nothing.
    pub fn get_account_certificates(&self, account: u64) -> (r: Vec<Certificate>)
        ensures
            r.deep_view() == resolve_certs(self.certificates@, self.account_ids(account)),
    {
        let mut result: Vec<Certificate> = Vec::new();
        let slot = match self.find_account(account) {
            Some(j) => j,
            None => {
                proof {
                    lemma_ids_in_absent(self.account_certificates@, account);
                    assert(result.deep_view() =~= resolve_certs(
                        self.certificates@,
                        self.account_ids(account),
                    ));
                }
                return result;
            },
        };
        proof {
            lemma_ids_in_at(self.account_certificates@, account, slot as int);
        }
        let entry = &self.account_certificates[slot];
        let n = entry.ids.len();
        let mut k: usize = 0;
        while k < n
            invariant
                n == entry.ids@.len(),
                k <= n,
                entry == &self.account_certificates@[slot as int],
                slot < self.account_certificates@.len(),
                result.deep_view() == resolve_certs(self.certificates@, entry.ids@.take(k as int)),
            decreases n - k,
        {
            let id = entry.ids[k];
            proof {
                assert(entry.ids@.take(k as int + 1).drop_last() =~= entry.ids@.take(k as int));
                assert(entry.ids@.take(k as int + 1).last() == id);
            }
            if id < self.certificates.len() as u64 {
                let ghost before = result.deep_view();
                result.push(self.certificates[id as usize].clone());
                proof {
                    assert(result.deep_view() =~= before.push(self.certificates@[id as int]@));
                }
            }
            k = k + 1;
        }
        proof {
            assert(entry.ids@.take(n as int) =~= entry.ids@);
            assert(self.account_ids(account) == entry.ids@);
        }
        result
    }

    /// Revoke the certificate `cert_id`. `authorized` is the external
    /// policy's decision for `caller`. The checks run in order: authorization,
    /// existence, the one-way revocation flag, and that `caller` is the
    /// recorded issuer — the current owner as such may not revoke. On any
    /// failure the state is exactly as it was; on success the only changes
    /// are the record's `revoked` flag and the appended event.
    pub fn revoke_cert(&mut self, caller: u64, authorized: bool, cert_id: u64) -> (r: Result<
        (),
        Error,
    >)
        requires
            old(self).wf(),
        ensures
            final(self).wf(),
            final(self).config == old(self).config,
            !authorized ==> r == Err::<(), Error>(Error::BadOrigin) && *final(self) == *old(self),
            authorized && old(self).spec_get(cert_id) is None ==> r == Err::<(), Error>(
                Error::CertificateNotFound,
            ) && *final(self) == *old(self),
            authorized && cert_id < old(self).certs().len() && old(self).certs()[cert_id as int].revoked
                ==> r == Err::<(), Error>(Error::CertificateAlreadyRevoked) && *final(self) == *old(
                self,
            ),
            authorized && cert_id < old(self).certs().len() && !old(self).certs()[cert_id as int].revoked
                && old(self).certs()[cert_id as int].issuer != caller ==> r == Err::<(), Error>(
                Error::NotCertificateOwner,
            ) && *final(self) == *old(self),
            authorized && cert_id < old(self).certs().len() && !old(self).certs()[cert_id as int].revoked
                && old(self).certs()[cert_id as int].issuer == caller ==> {
                let c = old(self).certs()[cert_id as int];
                &&& r == Ok::<(), Error>(())
                &&& final(self).certs() == old(self).certs().update(
                    cert_id as int,
                    (CertificateData { revoked: true, ..c }),
                )
                &&& final(self).certificate_count == old(self).certificate_count
                &&& final(self).account_certificates == old(self).account_certificates
                &&& final(self).events@ == old(self).events@.push(
                    (Event::CertificateRevoked { id: cert_id }),
                )
            },
            // Revocation is monotone: no record returns from revoked.
            forall|i: int|
                0 <= i < old(self).certs().len() && (#[trigger] old(self).certs()[i]).revoked
                    ==> final(self).certs()[i].revoked,
    {
        if !authorized {
            return Err(Error::BadOrigin);
        }
        if cert_id >= self.certificates.len() as u64 {
            return Err(Error::CertificateNotFound);
        }
        let i = cert_id as usize;
        if self.certificates[i].revoked {
            return Err(Error::CertificateAlreadyRevoked);
        }
        if self.certificates[i].issuer != caller {
            return Err(Error::NotCertificateOwner);
        }
        let mut cert = self.certificates.remove(i);
        cert.revoked = true;
        self.certificates.insert(i, cert);
        self.events.push(Event::CertificateRevoked { id: cert_id });
        proof {
            let pre = *old(self);
            let c = pre.certs()[cert_id as int];
            assert(self.certificates@ =~= pre.certificates@.update(i as int, cert));
            assert(self.certs() =~= pre.certs().update(
                cert_id as int,
                (CertificateData { revoked: true, ..c }),
            ));
            assert forall|i2: int, k: int|
                #![trigger self.account_certificates@[i2].ids@[k]]
                0 <= i2 < self.account_certificates@.len() && 0 <= k
                    < self.account_certificates@[i2].ids@.len() implies {
                let id = self.account_certificates@[i2].ids@[k];
                &&& id < self.certificates@.len()
                &&& self.certificates@[id as int].owner == self.account_certificates@[i2].account
            } by {
                assert(pre.account_certificates@[i2].ids@[k] < pre.certificates@.len());
            }
            assert forall|i2: int|
                0 <= i2 < self.certificates@.len() implies ids_in(
                self.account_certificates@,
                (#[trigger] self.certificates@[i2]).owner,
            ).contains(i2 as u64) by {
                assert(self.certificates@[i2].owner == pre.certificates@[i2].owner);
            }
        }
        Ok(())
    }

    /// Issue a certificate to `recipient`. `authorized` is the external
    /// policy's decision for `caller`. The checks run in order: authorization,
    /// the metadata bound, id exhaustion, and the recipient's index
    /// capacity; all of them run before any mutation, so a rejected issuance
    /// leaves no trace — in particular it does not advance the id allocator.
    /// On success the fresh id is returned, the record is stored, the id is
    /// appended to the recipient's index entry, and the event is logged, all
    /// atomically.
    pub fn issue_cert(
        &mut self,
        caller: u64,
        authorized: bool,
        recipient: u64,
        metadata: Vec<u8>,
        expires_at: u64,
        current_height: u64,
    ) -> (r: Result<u64, Error>)
        requires
            old(self).wf(),
        ensures
            final(self).wf(),
            final(self).config == old(self).config,
            !authorized ==> r == Err::<u64, Error>(Error::BadOrigin) && *final(self) == *old(self),
            authorized && metadata@.len() > old(self).config.max_metadata_length ==> r == Err::<
                u64,
                Error,
            >(Error::MetadataTooLong) && *final(self) == *old(self),
            authorized && metadata@.len() <= old(self).config.max_metadata_length && old(
                self,
            ).certificate_count == u64::MAX ==> r == Err::<u64, Error>(
                Error::CertificateAlreadyExists,
            ) && *final(self) == *old(self),
            authorized && metadata@.len() <= old(self).config.max_metadata_length && old(
                self,
            ).certificate_count < u64::MAX && !old(self).account_has_room(recipient) ==> r == Err::<
                u64,
                Error,
            >(Error::TooManyCertificates) && *final(self) == *old(self),
            authorized && metadata@.len() <= old(self).config.max_metadata_length && old(
                self,
            ).certificate_count < u64::MAX && old(self).account_has_room(recipient) ==> {
                let id = old(self).certificate_count;
                &&& r == Ok::<u64, Error>(id)
                &&& final(self).certificate_count == id + 1
                &&& final(self).certs() == old(self).certs().push(
                    (CertificateData {
                        id,
                        owner: recipient,
                        issuer: caller,
                        metadata: metadata@,
                        issued_at: current_height,
                        revoked: false,
                        expires_at,
                    }),
                )
                &&& final(self).account_ids(recipient) == old(self).account_ids(recipient).push(id)
                &&& forall|a: u64|
                    a != recipient ==> final(self).account_ids(a) == old(self).account_ids(a)
                &&& final(self).events@ == old(self).events@.push(
                    (Event::CertificateIssued { id, owner: recipient, issuer: caller }),
                )
            },
            // Revocation is monotone: issuing touches no existing record.
            forall|i: int|
                0 <= i < old(self).certs().len() && (#[trigger] old(self).certs()[i]).revoked
                    ==> final(self).certs()[i].revoked,
    {
        if !authorized {
            return Err(Error::BadOrigin);
        }
        if metadata.len() as u64 > self.config.max_metadata_length {
            return Err(Error::MetadataTooLong);
        }
        if self.certificate_count == u64::MAX {
            return Err(Error::CertificateAlreadyExists);
        }
        let slot = self.find_account(recipient);
        proof {
            match slot {
                Some(j) => lemma_ids_in_at(self.account_certificates@, recipient, j as int),
                None => lemma_ids_in_absent(self.account_certificates@, recipient),
            }
        }
        let has_room = match slot {
            Some(j) => (self.account_certificates[j].ids.len() as u64)
                < self.config.max_account_certificates,
            None => 0 < self.config.max_account_certificates,
        };
        if !has_room {
            return Err(Error::TooManyCertificates);
        }
        let id = match self.next_certificate_id() {
            Ok(id) => id,
            Err(e) => {
                return Err(e);
            },
        };
        let cert = Certificate {
            id,
            owner: recipient,
            issuer: caller,
            metadata,
            issued_at: current_height,
            revoked: false,
            expires_at,
        };
        self.certificates.push(cert);
        match slot {
            Some(j) => {
                let mut rec = self.account_certificates.remove(j);
                rec.ids.push(id);
                self.account_certificates.insert(j, rec);
                proof {
                    let pre = *old(self);
                    let rec2 = self.account_certificates@[j as int];
                    assert(self.account_certificates@ =~= pre.account_certificates@.update(
                        j as int,
                        rec2,
                    ));
                    assert(rec2.account == recipient);
                    assert(rec2.ids@ == pre.account_certificates@[j as int].ids@.push(id));
                    lemma_ids_in_at(self.account_certificates@, recipient, j as int);
                    assert forall|a: u64| a != recipient implies ids_in(
                        self.account_certificates@,
                        a,
                    ) == ids_in(pre.account_certificates@, a) by {
                        lemma_ids_in_update_other(pre.account_certificates@, j as int, rec2, a);
                    }
                    assert forall|k: int|
                        0 <= k < pre.account_certificates@[j as int].ids@.len() implies (
                    #[trigger] pre.account_certificates@[j as int].ids@[k]) < id by {}
                }
            },
            None => {
                let mut fresh_ids: Vec<u64> = Vec::new();
                fresh_ids.push(id);
                self.account_certificates.push(AccountRecord { account: recipient, ids: fresh_ids });
                proof {
                    let pre = *old(self);
                    let rec2 = self.account_certificates@[pre.account_certificates@.len() as int];
                    assert(self.account_certificates@ =~= pre.account_certificates@.push(rec2));
                    assert(rec2.account == recipient);
                    assert(rec2.ids@ =~= ids_in(pre.account_certificates@, recipient).push(id));
                    lemma_ids_in_push_new(pre.account_certificates@, rec2);
                    assert forall|a: u64| a != recipient implies ids_in(
                        self.account_certificates@,
                        a,
                    ) == ids_in(pre.account_certificates@, a) by {
                        lemma_ids_in_push_other(pre.account_certificates@, rec2, a);
                    }
                }
            },
        }
        self.events.push(Event::CertificateIssued { id, owner: recipient, issuer: caller });
        proof {
            let pre = *old(self);
            let entries = self.account_certificates@;
            let certs = self.certificates@;
            let data = CertificateData {
                id,
                owner: recipient,
                issuer: caller,
                metadata: metadata@,
                issued_at: current_height,
                revoked: false,
                expires_at,
            };
            assert(certs == pre.certificates@.push(certs[id as int]));
            assert(self.certs() =~= pre.certs().push(data));
            // Each index slot is either untouched or holds the fresh id.
            assert forall|j2: int, k: int|
                #![trigger entries[j2].ids@[k]]
                0 <= j2 < entries.len() && 0 <= k < entries[j2].ids@.len() implies {
                let id2 = entries[j2].ids@[k];
                ||| (0 <= j2 < pre.account_certificates@.len() && k
                    < pre.account_certificates@[j2].ids@.len() && id2
                    == pre.account_certificates@[j2].ids@[k] && entries[j2].account
                    == pre.account_certificates@[j2].account)
                ||| (entries[j2].account == recipient && id2 == id && k == entries[j2].ids@.len()
                    - 1)
            } by {
                match slot {
                    Some(j) => {
                        if j2 != j as int {
                            assert(entries[j2] == pre.account_certificates@[j2]);
                        }
                    },
                    None => {
                        if j2 < pre.account_certificates@.len() {
                            assert(entries[j2] == pre.account_certificates@[j2]);
                        }
                    },
                }
            }
            // The account of each entry is its old account, or the recipient
            // for a freshly created entry.
            assert forall|j2: int| 0 <= j2 < entries.len() implies (#[trigger] entries[j2]).account
                == (if j2 < pre.account_certificates@.len() {
                pre.account_certificates@[j2].account
            } else {
                recipient
            }) by {
                match slot {
                    Some(j) => {
                        if j2 != j as int {
                            assert(entries[j2] == pre.account_certificates@[j2]);
                        }
                    },
                    None => {
                        if j2 < pre.account_certificates@.len() {
                            assert(entries[j2] == pre.account_certificates@[j2]);
                        }
                    },
                }
            }
            // The index still resolves every listed id to its owner's record.
            assert forall|j2: int, k: int|
                #![trigger entries[j2].ids@[k]]
                0 <= j2 < entries.len() && 0 <= k < entries[j2].ids@.len() implies {
                let id2 = entries[j2].ids@[k];
                &&& id2 < certs.len()
                &&& certs[id2 as int].owner == entries[j2].account
            } by {
                let id2 = entries[j2].ids@[k];
                if !(entries[j2].account == recipient && id2 == id && k == entries[j2].ids@.len()
                    - 1) {
                    assert(id2 == pre.account_certificates@[j2].ids@[k]);
                    assert(id2 < pre.certificates@.len());
                }
            }
            // Capacity and issuance order are preserved.
            assert forall|j2: int| 0 <= j2 < entries.len() implies (#[trigger] entries[j2]).ids@.len()
                <= self.config.max_account_certificates by {
                match slot {
                    Some(j) => {
                        if j2 != j as int {
                            assert(entries[j2] == pre.account_certificates@[j2]);
                        }
                    },
                    None => {
                        if j2 < pre.account_certificates@.len() {
                            assert(entries[j2] == pre.account_certificates@[j2]);
                        }
                    },
                }
            }
            assert forall|j2: int, k1: int, k2: int|
                #![trigger entries[j2].ids@[k1], entries[j2].ids@[k2]]
                0 <= j2 < entries.len() && 0 <= k1 < k2 < entries[j2].ids@.len() implies entries[j2].ids@[k1]
                < entries[j2].ids@[k2] by {
                match slot {
                    Some(j) => {
                        if j2 == j as int {
                            assert(entries[j2].ids@[k1]
                                == pre.account_certificates@[j2].ids@[k1]);
                            if k2 < entries[j2].ids@.len() - 1 {
                                assert(entries[j2].ids@[k2]
                                    == pre.account_certificates@[j2].ids@[k2]);
                            } else {
                                assert(entries[j2].ids@[k1] < id);
                            }
                        } else {
                            assert(entries[j2] == pre.account_certificates@[j2]);
                        }
                    },
                    None => {
                        if j2 < pre.account_certificates@.len() {
                            assert(entries[j2] == pre.account_certificates@[j2]);
                        }
                    },
                }
            }
            assert forall|i2: int|
                0 <= i2 < certs.len() implies ids_in(
                entries,
                (#[trigger] certs[i2]).owner,
            ).contains(i2 as u64) by {
                let owner = certs[i2].owner;
                if i2 == id as int {
                    let ids2 = ids_in(entries, recipient);
                    assert(ids2[ids2.len() - 1] == id);
                } else {
                    let pre_ids = ids_in(pre.account_certificates@, owner);
                    assert(pre_ids.contains(i2 as u64));
                    let k = choose|k: int| 0 <= k < pre_ids.len() && pre_ids[k] == i2 as u64;
                    let ids2 = ids_in(entries, owner);
                    if owner == recipient {
                        assert(ids2 == pre_ids.push(id));
                        assert(ids2[k] == i2 as u64);
                    } else {
                        assert(ids2 == pre_ids);
                    }
                    assert(ids2.contains(i2 as u64));
                }
            }
        }
        Ok(id)
    }
}

impl Clone for Pallet {
    /// An independent copy of the registry state, equal to the original as a
    /// mathematical value — what a snapshot of the state is.
    fn clone(&self) -> (r: Self)
        ensures
            r.config == self.config,
            r.certificate_count == self.certificate_count,
            r.certs() == self.certs(),
            r.events@ == self.events@,
            forall|a: u64| r.account_ids(a) == self.account_ids(a),
            self.wf() ==> r.wf(),
    {
        let r = Pallet {
            config: self.config,
            certificate_count: self.certificate_count,
            certificates: self.certificates.clone(),
            account_certificates: self.account_certificates.clone(),
            events: self.events.clone(),
        };
        proof {
            assert(r.certs() =~= self.certs());
            assert(r.events@ =~= self.events@);
            assert forall|j: int|
                0 <= j < r.account_certificates@.len() implies (
            #[trigger] r.account_certificates@[j]).account == self.account_certificates@[j].account
                && r.account_certificates@[j].ids@ == self.account_certificates@[j].ids@ by {
                assert(cloned::<AccountRecord>(
                    self.account_certificates@[j],
                    r.account_certificates@[j],
                ));
            }
            assert forall|a: u64| r.account_ids(a) == self.account_ids(a) by {
                lemma_ids_in_congruent(r.account_certificates@, self.account_certificates@, a);
            }
            if self.wf() {
                assert forall|i: int|
                    0 <= i < r.certificates@.len() implies (#[trigger] r.certificates@[i]).id == i
                        && r.certificates@[i].metadata@.len() <= r.config.max_metadata_length by {
                    assert(r.certs()[i] == self.certs()[i]);
                    assert(self.certificates@[i].id == i);
                }
                assert forall|j: int, k: int|
                    #![trigger r.account_certificates@[j].ids@[k]]
                    0 <= j < r.account_certificates@.len() && 0 <= k
                        < r.account_certificates@[j].ids@.len() implies {
                    let id = r.account_certificates@[j].ids@[k];
                    &&& id < r.certificates@.len()
                    &&& r.certificates@[id as int].owner == r.account_certificates@[j].account
                } by {
                    let id = r.account_certificates@[j].ids@[k];
                    assert(self.account_certificates@[j].ids@[k] < self.certificates@.len());
                    assert(r.certs()[id as int] == self.certs()[id as int]);
                }
                assert forall|i: int|
                    0 <= i < r.certificates@.len() implies ids_in(
                    r.account_certificates@,
                    (#[trigger] r.certificates@[i]).owner,
                ).contains(i as u64) by {
                    assert(r.certs()[i] == self.certs()[i]);
                    assert(r.certificates@[i].owner == self.certificates@[i].owner);
                    assert(r.account_ids(self.certificates@[i].owner) == self.account_ids(
                        self.certificates@[i].owner,
                    ));
                }
            }
        }
        r
    }
}

/// Certificate ids are unique and strictly increasing in issuance order: a
/// record stored later carries a strictly larger id than every earlier one.
pub proof fn lemma_ids_strictly_increasing(r: Pallet)
    requires
        r.wf(),
    ensures
        forall|i1: int, i2: int|
            0 <= i1 < i2 < r.certs().len() ==> (#[trigger] r.certs()[i1]).id < (
            #[trigger] r.certs()[i2]).id,
{
    assert forall|i1: int, i2: int|
        0 <= i1 < i2 < r.certs().len() implies (#[trigger] r.certs()[i1]).id < (
    #[trigger] r.certs()[i2]).id by {
        assert(r.certs()[i1].id == r.certificates@[i1].id);
        assert(r.certs()[i2].id == r.certificates@[i2].id);
    }
}

/// An id that was never issued is never valid, at any height.
pub proof fn lemma_unissued_invalid(r: Pallet, cert_id: u64, height: u64)
    requires
        r.spec_get(cert_id) is None,
    ensures
        !r.spec_is_valid(cert_id, height),
{
}

/// Expiry is a strict boundary: a certificate whose `expires_at` is nonzero
/// is, while unrevoked, valid at every height strictly below `expires_at`
/// and invalid at `expires_at` and at every greater height.
pub proof fn lemma_expiry_boundary(r: Pallet, cert_id: u64, height: u64)
    requires
        r.spec_get(cert_id) is Some,
        r.spec_get(cert_id).unwrap().expires_at > 0,
    ensures
        r.spec_is_valid(cert_id, height) == (!r.spec_get(cert_id).unwrap().revoked && height < r.spec_get(
            cert_id,
        ).unwrap().expires_at),
{
}

/// A certificate with `expires_at == 0` never expires: while unrevoked it
/// stays valid at every height.
pub proof fn lemma_no_expiry(r: Pallet, cert_id: u64)
    requires
        r.spec_get(cert_id) is Some,
        r.spec_get(cert_id).unwrap().expires_at == 0,
        !r.spec_get(cert_id).unwrap().revoked,
    ensures
        forall|height: u64| r.spec_is_valid(cert_id, height),
{
}

/// The account query is exact: the ids recorded for an account name
/// certificates owned by it and nothing else, every certificate issued to it
/// is among them in issuance order, and the defensive filter of
/// [`Pallet::get_account_certificates`] drops none of them.
pub proof fn lemma_account_certificates_exact(r: Pallet, account: u64)
    requires
        r.wf(),
    ensures
        forall|k: int|
            0 <= k < r.account_ids(account).len() ==> (#[trigger] r.account_ids(account)[k])
                < r.certs().len() && r.certs()[r.account_ids(account)[k] as int].owner == account,
        forall|id: u64|
            id < r.certs().len() && (#[trigger] r.certs()[id as int]).owner == account
                ==> r.account_ids(account).contains(id),
        forall|k1: int, k2: int|
            0 <= k1 < k2 < r.account_ids(account).len() ==> r.account_ids(account)[k1]
                < r.account_ids(account)[k2],
        resolve_certs(r.certificates@, r.account_ids(account)).len() == r.account_ids(
            account,
        ).len(),
        forall|k: int|
            0 <= k < r.account_ids(account).len() ==> resolve_certs(
                r.certificates@,
                r.account_ids(account),
            )[k] == r.certs()[(#[trigger] r.account_ids(account)[k]) as int],
{
    let entries = r.account_certificates@;
    let ids = r.account_ids(account);
    lemma_ids_in_entry(entries, account);
    if ids != Seq::<u64>::empty() {
        let j = choose|j: int|
            0 <= j < entries.len() && (#[trigger] entries[j]).account == account && ids_in(
                entries,
                account,
            ) == entries[j].ids@;
        assert(ids == entries[j].ids@);
    }
    assert forall|id: u64|
        id < r.certs().len() && (#[trigger] r.certs()[id as int]).owner == account implies ids.contains(
        id,
    ) by {
        assert(r.certificates@[id as int].owner == account);
    }
    lemma_resolve_certs_total(r.certificates@, ids);
}

} // verus!
