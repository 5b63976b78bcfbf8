//! The idempotency gate: single-use tokens that make client retries of a
//! mutating request safe.
//!
//! A token is issued unused, transitions to used exactly once (the
//! compare-and-swap on `used` is the only point where a concurrency race is
//! resolved), and afterwards carries, one-time-populated, the cached
//! response of the mutation it guarded, which later claims replay verbatim.

use vstd::prelude::*;
use crate::error::ApiError;

verus! {

/// The cached outcome of the mutation a token guarded: the exact
/// `(status, headers, body)` triple the first execution produced.
pub struct StoredResponse {
    pub status: u16,
    pub headers: Vec<(String, String)>,
    pub body: Vec<u8>,
}

/// The mathematical content of a [`StoredResponse`].
#[verifier::ext_equal]
pub ghost struct StoredResponseView {
    pub status: u16,
    pub headers: Seq<(Seq<char>, Seq<char>)>,
    pub body: Seq<u8>,
}

pub open spec fn headers_view(h: Seq<(String, String)>) -> Seq<(Seq<char>, Seq<char>)> {
    h.map_values(|p: (String, String)| (p.0@, p.1@))
}

impl View for StoredResponse {
    type V = StoredResponseView;

    open spec fn view(&self) -> StoredResponseView {
        StoredResponseView {
            status: self.status,
            headers: headers_view(self.headers@),
            body: self.body@,
        }
    }
}

impl Clone for StoredResponse {
    /// A copy with the same status, headers and body.
    fn clone(&self) -> (r: Self)
        ensures
            r@ == self@,
    {
        let mut headers: Vec<(String, String)> = Vec::new();
        let mut i: usize = 0;
        while i < self.headers.len()
            invariant
                i <= self.headers.len(),
                headers@ == self.headers@.subrange(0, i as int),
            decreases self.headers.len() - i,
        {
            let pair = (self.headers[i].0.clone(), self.headers[i].1.clone());
            headers.push(pair);
            proof {
                assert(headers@ =~= self.headers@.subrange(0, i + 1));
            }
            i = i + 1;
        }
        let mut body: Vec<u8> = Vec::new();
        let mut j: usize = 0;
        while j < self.body.len()
            invariant
                j <= self.body.len(),
                body@ == self.body@.subrange(0, j as int),
            decreases self.body.len() - j,
        {
            body.push(self.body[j]);
            proof {
                assert(body@ =~= self.body@.subrange(0, j + 1));
            }
            j = j + 1;
        }
        proof {
            assert(headers@ =~= self.headers@);
            assert(body@ =~= self.body@);
        }
        let r = StoredResponse { status: self.status, headers, body };
        proof {
            assert(r@ =~= self@);
        }
        r
    }
}

/// One row of the token ledger.
pub struct TokenRecord {
    pub token: String,
    pub used: bool,
    pub response: Option<StoredResponse>,
}

/// The mathematical content of a [`TokenRecord`].
#[verifier::ext_equal]
pub ghost struct TokenRecordView {
    pub token: Seq<char>,
    pub used: bool,
    pub response: Option<StoredResponseView>,
}

impl View for TokenRecord {
    type V = TokenRecordView;

    open spec fn view(&self) -> TokenRecordView {
        TokenRecordView {
            token: self.token@,
            used: self.used,
            response: match self.response {
                Some(ref r) => Some(r@),
                None => None,
            },
        }
    }
}

/// The persistent token ledger. Rows are never deleted; `used` flips to
/// true at most once per row, and the cached response is populated at most
/// once, after that flip.
pub struct TokenLedger {
    pub records: Vec<TokenRecord>,
}

impl View for TokenLedger {
    type V = Seq<TokenRecordView>;

    open spec fn view(&self) -> Seq<TokenRecordView> {
        self.records@.map_values(|r: TokenRecord| r@)
    }
}

/// Ledger well-formedness: token values are unique, and a row that was
/// never used carries no cached response (the response is only populated
/// after the one `used` flip).
pub open spec fn ledger_wf(s: Seq<TokenRecordView>) -> bool {
    &&& forall|i: int, j: int|
        0 <= i < s.len() && 0 <= j < s.len() && i != j ==> s[i].token != s[j].token
    &&& forall|i: int| 0 <= i < s.len() && !(#[trigger] s[i]).used ==> s[i].response is None
}

pub open spec fn spec_has_token(s: Seq<TokenRecordView>, t: Seq<char>) -> bool {
    exists|i: int| 0 <= i < s.len() && s[i].token == t
}

/// The index of the row for token `t` (unique when the ledger is
/// well-formed).
pub open spec fn spec_token_index(s: Seq<TokenRecordView>, t: Seq<char>) -> int {
    choose|i: int| 0 <= i < s.len() && s[i].token == t
}

/// Issuing appends one unused row with no cached response.
pub open spec fn spec_issue(s: Seq<TokenRecordView>, t: Seq<char>) -> Seq<TokenRecordView> {
    s.push(TokenRecordView { token: t, used: false, response: None })
}

/// What a claim reports, stripped of the replayed payload.
#[derive(Clone, Copy, Debug, PartialEq, Eq, Structural)]
pub enum ClaimVerdict {
    /// This caller won the token: it must now execute the mutation and
    /// store the response.
    FirstUse,
    /// The token was already used and its response is cached: that
    /// response is returned verbatim.
    Replay,
    /// No row exists for the token.
    UnknownToken,
    /// The token is already used but no response is cached yet: another
    /// caller won the race and has not finished; this caller must not
    /// silently do the work twice.
    RaceLost,
}

/// What a claim of token `t` against ledger state `s` reports.
pub open spec fn spec_claim_verdict(s: Seq<TokenRecordView>, t: Seq<char>) -> ClaimVerdict {
    if !spec_has_token(s, t) {
        ClaimVerdict::UnknownToken
    } else {
        let r = s[spec_token_index(s, t)];
        if r.used {
            if r.response is Some {
                ClaimVerdict::Replay
            } else {
                ClaimVerdict::RaceLost
            }
        } else {
            ClaimVerdict::FirstUse
        }
    }
}

/// The ledger state after a claim of token `t`: only a winning first use
/// changes anything, flipping that row's `used` flag.
pub open spec fn spec_claim_state(s: Seq<TokenRecordView>, t: Seq<char>) -> Seq<TokenRecordView> {
    if spec_claim_verdict(s, t) == ClaimVerdict::FirstUse {
        let i = spec_token_index(s, t);
        s.update(i, TokenRecordView { token: s[i].token, used: true, response: s[i].response })
    } else {
        s
    }
}

/// The payload a replay returns.
pub open spec fn spec_replay_payload(s: Seq<TokenRecordView>, t: Seq<char>) -> StoredResponseView {
    s[spec_token_index(s, t)].response->0
}

/// Recording a response is allowed exactly once, on a used row that has
/// none yet.
pub open spec fn spec_record_allowed(s: Seq<TokenRecordView>, t: Seq<char>) -> bool {
    &&& spec_has_token(s, t)
    &&& s[spec_token_index(s, t)].used
    &&& s[spec_token_index(s, t)].response is None
}

/// The ledger state after recording response `resp` for token `t`.
pub open spec fn spec_record_state(
    s: Seq<TokenRecordView>,
    t: Seq<char>,
    resp: StoredResponseView,
) -> Seq<TokenRecordView> {
    let i = spec_token_index(s, t);
    s.update(i, TokenRecordView { token: s[i].token, used: s[i].used, response: Some(resp) })
}

/// What `consume_or_replay` hands back.
pub enum ClaimOutcome {
    /// Execute the mutation; then call `store_response_for_token`.
    FirstUse,
    /// The previously stored response, to return verbatim.
    Replay(StoredResponse),
    /// Report 401: the token was never issued.
    UnknownToken,
    /// Report 409: another caller holds the token.
    RaceLost,
}

pub open spec fn verdict_of(o: ClaimOutcome) -> ClaimVerdict {
    match o {
        ClaimOutcome::FirstUse => ClaimVerdict::FirstUse,
        ClaimOutcome::Replay(_) => ClaimVerdict::Replay,
        ClaimOutcome::UnknownToken => ClaimVerdict::UnknownToken,
        ClaimOutcome::RaceLost => ClaimVerdict::RaceLost,
    }
}

/// Relies on uuid::Uuid::new_v4 and its lowercase hyphenated rendering:
/// a freshly drawn random 128-bit identifier shown as 36 characters.
/// Nothing is assumed about which value comes back.
#[verifier::external_body]
fn new_token() -> (t: String)
    ensures
        t@.len() == 36,
{
    uuid::Uuid::new_v4().to_string()
}

impl TokenLedger {
    /// An empty ledger.
    pub fn new() -> (l: TokenLedger)
        ensures
            l@ == Seq::<TokenRecordView>::empty(),
            ledger_wf(l@),
    {
        let l = TokenLedger { records: Vec::new() };
        proof {
            assert(l@ =~= Seq::<TokenRecordView>::empty());
        }
        l
    }

    /// The index of the row holding `token`, if any.
    fn find(&self, token: &String) -> (r: Option<usize>)
        requires
            ledger_wf(self@),
        ensures
            match r {
                Some(i) => {
                    &&& i < self@.len()
                    &&& self@[i as int].token == token@
                    &&& spec_has_token(self@, token@)
                    &&& spec_token_index(self@, token@) == i as int
                },
                None => !spec_has_token(self@, token@),
            },
    {
        let mut i: usize = 0;
        while i < self.records.len()
            invariant
                i <= self.records.len(),
                ledger_wf(self@),
                self@.len() == self.records.len(),
                forall|j: int| 0 <= j < i ==> self@[j].token != token@,
            decreases self.records.len() - i,
        {
            if self.records[i].token == *token {
                proof {
                    assert(self@[i as int].token == token@);
                    assert(spec_token_index(self@, token@) == i as int) by {
                        let k = spec_token_index(self@, token@);
                        assert(0 <= k < self@.len() && self@[k].token == token@);
                    }
                }
                return Some(i);
            }
            i = i + 1;
        }
        proof {
            assert(!spec_has_token(self@, token@)) by {
                if spec_has_token(self@, token@) {
                    let k = choose|k: int| 0 <= k < self@.len() && self@[k].token == token@;
                    assert(self@[k].token != token@);
                }
            }
        }
        None
    }

    /// Issue a new single-use token: draw a fresh random value and append
    /// it to the ledger, unused, with no cached response.
    ///
    /// Issuance is refused only when the drawn value collides with an
    /// existing row (the random source gives no guarantee); nothing is
    /// recorded then and no token is handed out. On an empty ledger no
    /// collision is possible, so issuance always succeeds there.
    pub fn issue_token(&mut self) -> (r: Option<String>)
        requires
            ledger_wf(old(self)@),
        ensures
            ledger_wf(final(self)@),
            match r {
                Some(t) => {
                    &&& t@.len() == 36
                    &&& !spec_has_token(old(self)@, t@)
                    &&& final(self)@ == spec_issue(old(self)@, t@)
                },
                None => {
                    &&& final(self)@ == old(self)@
                    &&& old(self)@.len() >= 1
                },
            },
    {
        let t = new_token();
        match self.find(&t) {
            Some(_) => None,
            None => {
                let ghost old_view = self@;
                let record = TokenRecord { token: t.clone(), used: false, response: None };
                self.records.push(record);
                proof {
                    assert(self@ =~= spec_issue(old_view, t@));
                    lemma_issue_preserves_wf(old_view, t@);
                }
                Some(t)
            },
        }
    }

    /// Claim the token, or if it was already used, replay the stored
    /// response.
    ///
    /// The `used: false -> true` transition happens atomically with the
    /// decision: exactly one caller per token ever sees `FirstUse`.
    pub fn consume_or_replay(&mut self, token: &String) -> (r: ClaimOutcome)
        requires
            ledger_wf(old(self)@),
        ensures
            ledger_wf(final(self)@),
            final(self)@ == spec_claim_state(old(self)@, token@),
            verdict_of(r) == spec_claim_verdict(old(self)@, token@),
            match r {
                ClaimOutcome::Replay(resp) => resp@ == spec_replay_payload(old(self)@, token@),
                _ => true,
            },
    {
        let found = self.find(token);
        match found {
            None => ClaimOutcome::UnknownToken,
            Some(i) => {
                if self.records[i].used {
                    match &self.records[i].response {
                        Some(resp) => ClaimOutcome::Replay(resp.clone()),
                        None => ClaimOutcome::RaceLost,
                    }
                } else {
                    let ghost old_view = self@;
                    let token_copy = self.records[i].token.clone();
                    self.records[i] = TokenRecord { token: token_copy, used: true, response: None };
                    proof {
                        assert(old_view[i as int].response is None);
                        assert(self@ =~= spec_claim_state(old_view, token@));
                        lemma_claim_preserves_wf(old_view, token@);
                    }
                    ClaimOutcome::FirstUse
                }
            },
        }
    }

    /// After the guarded mutation has produced its response, persist it so
    /// that every future claim of this token replays it.
    ///
    /// Allowed exactly once per first use: the row must exist, be used,
    /// and have no cached response yet. A missing row reports 401; a row
    /// in any other state reports 409.
    pub fn store_response_for_token(
        &mut self,
        token: &String,
        status: u16,
        headers: Vec<(String, String)>,
        body: Vec<u8>,
    ) -> (r: Result<(), ApiError>)
        requires
            ledger_wf(old(self)@),
        ensures
            ledger_wf(final(self)@),
            match r {
                Ok(()) => {
                    &&& spec_record_allowed(old(self)@, token@)
                    &&& final(self)@ == spec_record_state(
                        old(self)@,
                        token@,
                        StoredResponseView {
                            status,
                            headers: headers_view(headers@),
                            body: body@,
                        },
                    )
                },
                Err(e) => {
                    &&& final(self)@ == old(self)@
                    &&& !spec_record_allowed(old(self)@, token@)
                    &&& e == (if spec_has_token(old(self)@, token@) {
                        ApiError::Conflict
                    } else {
                        ApiError::Unauthorized
                    })
                },
            },
    {
        let found = self.find(token);
        match found {
            None => Err(ApiError::Unauthorized),
            Some(i) => {
                if !self.records[i].used {
                    return Err(ApiError::Conflict);
                }
                match &self.records[i].response {
                    Some(_) => Err(ApiError::Conflict),
                    None => {
                        let ghost old_view = self@;
                        let token_copy = self.records[i].token.clone();
                        let resp = StoredResponse { status, headers, body };
                        self.records[i] = TokenRecord {
                            token: token_copy,
                            used: true,
                            response: Some(resp),
                        };
                        proof {
                            let ghost resp_view = StoredResponseView {
                                status,
                                headers: headers_view(headers@),
                                body: body@,
                            };
                            assert(self@ =~= spec_record_state(old_view, token@, resp_view));
                            lemma_record_preserves_wf(old_view, token@, resp_view);
                        }
                        Ok(())
                    },
                }
            },
        }
    }
}

/// In a well-formed ledger, an index holding the token is the row the
/// token-lookup spec picks.
pub proof fn lemma_token_index_unique(s: Seq<TokenRecordView>, t: Seq<char>, i: int)
    requires
        ledger_wf(s),
        0 <= i < s.len(),
        s[i].token == t,
    ensures
        spec_has_token(s, t),
        spec_token_index(s, t) == i,
{
    assert(spec_has_token(s, t));
    let k = spec_token_index(s, t);
    assert(0 <= k < s.len() && s[k].token == t);
}

/// Issuing a fresh token keeps the ledger well-formed.
pub proof fn lemma_issue_preserves_wf(s: Seq<TokenRecordView>, t: Seq<char>)
    requires
        ledger_wf(s),
        !spec_has_token(s, t),
    ensures
        ledger_wf(spec_issue(s, t)),
{
    let s1 = spec_issue(s, t);
    assert forall|i: int, j: int|
        0 <= i < s1.len() && 0 <= j < s1.len() && i != j implies s1[i].token != s1[j].token by {
        if i == s.len() as int {
            if s[j].token == t {
                assert(spec_has_token(s, t));
            }
        } else if j == s.len() as int {
            if s[i].token == t {
                assert(spec_has_token(s, t));
            }
        }
    }
}

/// A claim keeps the ledger well-formed.
pub proof fn lemma_claim_preserves_wf(s: Seq<TokenRecordView>, t: Seq<char>)
    requires
        ledger_wf(s),
    ensures
        ledger_wf(spec_claim_state(s, t)),
{
    if spec_claim_verdict(s, t) == ClaimVerdict::FirstUse {
        let i = spec_token_index(s, t);
        assert(spec_has_token(s, t));
        assert(0 <= i < s.len() && s[i].token == t);
        let s2 = spec_claim_state(s, t);
        assert forall|p: int, q: int|
            0 <= p < s2.len() && 0 <= q < s2.len() && p != q
            implies s2[p].token != s2[q].token by {
            assert(s2[p].token == s[p].token);
            assert(s2[q].token == s[q].token);
        }
        assert forall|p: int| 0 <= p < s2.len() && !(#[trigger] s2[p]).used
            implies s2[p].response is None by {
            assert(s2[p] == s[p]);
        }
    }
}

/// Recording the response keeps the ledger well-formed.
pub proof fn lemma_record_preserves_wf(
    s: Seq<TokenRecordView>,
    t: Seq<char>,
    resp: StoredResponseView,
)
    requires
        ledger_wf(s),
        spec_record_allowed(s, t),
    ensures
        ledger_wf(spec_record_state(s, t, resp)),
{
    let i = spec_token_index(s, t);
    assert(0 <= i < s.len() && s[i].token == t);
    let s2 = spec_record_state(s, t, resp);
    assert forall|p: int, q: int|
        0 <= p < s2.len() && 0 <= q < s2.len() && p != q implies s2[p].token != s2[q].token by {
        assert(s2[p].token == s[p].token);
        assert(s2[q].token == s[q].token);
    }
    assert forall|p: int| 0 <= p < s2.len() && !(#[trigger] s2[p]).used
        implies s2[p].response is None by {
        if p != i {
            assert(s2[p] == s[p]);
        }
    }
}

/// Idempotency, sequential retry: after issuing a fresh token, the first
/// claim reports `FirstUse`; once the response is recorded, a second claim
/// reports `Replay` carrying exactly the recorded `(status, headers, body)`
/// triple, and leaves the ledger unchanged.
pub proof fn lemma_idempotency_single_execution(
    s: Seq<TokenRecordView>,
    t: Seq<char>,
    resp: StoredResponseView,
)
    requires
        ledger_wf(s),
        !spec_has_token(s, t),
    ensures
        ({
            let s1 = spec_issue(s, t);
            let s2 = spec_claim_state(s1, t);
            let s3 = spec_record_state(s2, t, resp);
            &&& spec_claim_verdict(s1, t) == ClaimVerdict::FirstUse
            &&& spec_record_allowed(s2, t)
            &&& spec_claim_verdict(s3, t) == ClaimVerdict::Replay
            &&& spec_replay_payload(s3, t) == resp
            &&& spec_claim_state(s3, t) == s3
        }),
{
    let s1 = spec_issue(s, t);
    let n = s.len() as int;
    lemma_issue_preserves_wf(s, t);
    assert(s1[n].token == t);
    lemma_token_index_unique(s1, t, n);
    let s2 = spec_claim_state(s1, t);
    lemma_claim_preserves_wf(s1, t);
    assert(s2[n].token == t);
    lemma_token_index_unique(s2, t, n);
    assert(s2[n].used && s2[n].response is None);
    let s3 = spec_record_state(s2, t, resp);
    lemma_record_preserves_wf(s2, t, resp);
    assert(s3[n].token == t);
    lemma_token_index_unique(s3, t, n);
    assert(s3[n].used && s3[n].response == Some(resp));
}

/// Idempotency under concurrency: when two callers claim the same fresh
/// token and the store serializes their conditional updates, the caller
/// whose update applies first reports `FirstUse` and the other reports
/// `RaceLost` — never two `FirstUse` — and the losing claim changes
/// nothing.
pub proof fn lemma_idempotency_claim_race(s: Seq<TokenRecordView>, t: Seq<char>)
    requires
        ledger_wf(s),
        !spec_has_token(s, t),
    ensures
        ({
            let s1 = spec_issue(s, t);
            let s2 = spec_claim_state(s1, t);
            &&& spec_claim_verdict(s1, t) == ClaimVerdict::FirstUse
            &&& spec_claim_verdict(s2, t) == ClaimVerdict::RaceLost
            &&& spec_claim_state(s2, t) == s2
        }),
{
    let s1 = spec_issue(s, t);
    let n = s.len() as int;
    lemma_issue_preserves_wf(s, t);
    assert(s1[n].token == t);
    lemma_token_index_unique(s1, t, n);
    let s2 = spec_claim_state(s1, t);
    lemma_claim_preserves_wf(s1, t);
    assert(s2[n].token == t);
    lemma_token_index_unique(s2, t, n);
    assert(s2[n].used && s2[n].response is None);
}

} // verus!
