//! The election ledger: a fixed candidate slate, one write-once ballot per
//! voter, and a running per-candidate point tally that always equals the sum
//! of the accepted ballots' contributions.

use vstd::prelude::*;

use crate::text::spec_joined;
use crate::text::spec_dec;
use crate::text::join_lines;
use crate::text::dec_u16;
use crate::results_json::spec_results_json;
use crate::results_json::encode_results;

verus! {

/// One slot of an accepted ballot: the candidate's display name at that slot
/// and the points this ballot awards it.
pub struct Vote {
    pub candidate: String,
    pub points: u8,
}

/// The mathematical content of a `Vote`.
pub struct VoteView {
    pub candidate: Seq<char>,
    pub points: u8,
}

impl View for Vote {
    type V = VoteView;

    open spec fn view(&self) -> VoteView {
        VoteView { candidate: self.candidate@, points: self.points }
    }
}

/// A candidate of the slate: display name and accumulated point total.
pub struct Candidate {
    pub name: String,
    pub points: u64,
}

/// The mathematical content of a `Candidate`.
pub struct CandidateView {
    pub name: Seq<char>,
    pub points: u64,
}

impl View for Candidate {
    type V = CandidateView;

    open spec fn view(&self) -> CandidateView {
        CandidateView { name: self.name@, points: self.points }
    }
}

/// One voter's entry in the ledger: the voter's public identity and the
/// ballot accepted from it.
pub struct BallotRecord {
    pub voter: [u8; 32],
    pub ballot: Vec<Vote>,
}

/// The mathematical content of a `BallotRecord`.
pub struct BallotRecordView {
    pub voter: Seq<u8>,
    pub ballot: Seq<VoteView>,
}

impl View for BallotRecord {
    type V = BallotRecordView;

    open spec fn view(&self) -> BallotRecordView {
        BallotRecordView { voter: self.voter@, ballot: self.ballot@.map_values(|v: Vote| v@) }
    }
}

/// Why a submitted ballot was rejected. Both rejections happen before any
/// mutation: a failed submission leaves the election state unchanged.
#[derive(Debug, Clone, Copy, PartialEq, Eq, Structural)]
pub enum VoteError {
    /// The calling identity has a ballot on record already.
    AlreadyVoted,
    /// The submitted preference sequence repeats a non-zero value.
    DuplicatePreference,
}

/// The election ledger itself.
pub struct BallotPaper {
    pub year: u16,
    pub location: String,
    pub results: Vec<Candidate>,
    pub votes: Vec<BallotRecord>,
}

/// The mathematical content of a `BallotPaper`.
pub struct ElectionView {
    pub year: u16,
    pub location: Seq<char>,
    pub candidates: Seq<CandidateView>,
    pub records: Seq<BallotRecordView>,
}

impl View for BallotPaper {
    type V = ElectionView;

    open spec fn view(&self) -> ElectionView {
        ElectionView {
            year: self.year,
            location: self.location@,
            candidates: self.results@.map_values(|c: Candidate| c@),
            records: self.votes@.map_values(|r: BallotRecord| r@),
        }
    }
}

/// A preference sequence repeats some non-zero value. Zero means "no ranking
/// given to this candidate" and may repeat freely.
pub open spec fn has_dup_nonzero(prefs: Seq<u8>) -> bool {
    exists|i: int, j: int| 0 <= i < j < prefs.len() && prefs[i] == prefs[j] && prefs[j] != 0
}

/// The ballot awards its points to the slate's candidates slot by slot:
/// entry `i` names the candidate at slot `i`. A ballot may be shorter than
/// the slate; trailing slots are simply unranked on it.
pub open spec fn ballot_wf(cands: Seq<CandidateView>, b: Seq<VoteView>) -> bool {
    &&& b.len() <= cands.len()
    &&& forall|i: int| 0 <= i < b.len() ==> (#[trigger] b[i]).candidate == cands[i].name
}

/// The points a ballot contributes to the candidate at slot `i`: its entry
/// there, or nothing when the ballot leaves the slot unranked.
pub open spec fn contribution(b: Seq<VoteView>, i: int) -> int {
    if 0 <= i < b.len() {
        b[i].points as int
    } else {
        0
    }
}

/// The sum, over the given records' ballots, of the points contributed to
/// the candidate at slot `i`.
pub open spec fn tally_sum(records: Seq<BallotRecordView>, i: int) -> int
    decreases records.len(),
{
    if records.len() == 0 {
        0
    } else {
        tally_sum(records.drop_last(), i) + contribution(records.last().ballot, i)
    }
}

/// The ballot an admitted preference sequence turns into: one entry per
/// given slot, naming the candidate there and the points awarded.
pub open spec fn spec_ballot(cands: Seq<CandidateView>, prefs: Seq<u8>) -> Seq<VoteView> {
    Seq::new(prefs.len(), |i: int| VoteView { candidate: cands[i].name, points: prefs[i] })
}

impl ElectionView {
    /// The given identity already has a ballot on record.
    pub open spec fn voted(self, id: Seq<u8>) -> bool {
        exists|k: int| 0 <= k < self.records.len() && (#[trigger] self.records[k]).voter == id
    }

    /// Every recorded voter identity appears at most once.
    pub open spec fn distinct_voters(self) -> bool {
        forall|p: int, q: int|
            0 <= p < q < self.records.len() ==> (#[trigger] self.records[p]).voter != (
            #[trigger] self.records[q]).voter
    }

    /// Well-formedness: voters are recorded at most once, every accepted
    /// ballot fits the slate, and each candidate's accumulated total equals
    /// the sum of the accepted ballots' contributions to its slot.
    pub open spec fn wf(self) -> bool {
        &&& self.distinct_voters()
        &&& forall|k: int|
            0 <= k < self.records.len() ==> ballot_wf(self.candidates, (
            #[trigger] self.records[k]).ballot)
        &&& forall|i: int|
            0 <= i < self.candidates.len() ==> (#[trigger] self.candidates[i]).points as int
                == tally_sum(self.records, i)
    }

    /// The slate's display names, in slate order.
    pub open spec fn candidate_names(self) -> Seq<Seq<char>> {
        self.candidates.map_values(|c: CandidateView| c.name)
    }

    /// The accumulated totals, in slate order.
    pub open spec fn candidate_points(self) -> Seq<u64> {
        self.candidates.map_values(|c: CandidateView| c.points)
    }

    /// The validator admits the submission: the identity has not voted and
    /// the preferences repeat no non-zero value.
    pub open spec fn admits(self, id: Seq<u8>, prefs: Seq<u8>) -> bool {
        &&& !self.voted(id)
        &&& !has_dup_nonzero(prefs)
    }

    /// The preferences fit the slate and every addition to a running total
    /// stays within its machine width.
    pub open spec fn can_apply(self, prefs: Seq<u8>) -> bool {
        &&& prefs.len() <= self.candidates.len()
        &&& forall|i: int|
            0 <= i < prefs.len() ==> (#[trigger] self.candidates[i]).points + prefs[i]
                <= u64::MAX
    }
}

impl VoteError {
    /// The report of this rejection, word for word as the ledger announces it.
    pub fn message(&self) -> (r: String)
        ensures
            *self is AlreadyVoted ==> r@ == "This address has already voted."@,
            *self is DuplicatePreference ==> r@ == "This vote contains recurring vote number"@,
    {
        match self {
            VoteError::AlreadyVoted => "This address has already voted.".to_owned(),
            VoteError::DuplicatePreference => "This vote contains recurring vote number".to_owned(),
        }
    }
}

/// The two byte keys are the same identity.
fn ids_equal(a: &[u8; 32], b: &[u8; 32]) -> (r: bool)
    ensures
        r == (a@ == b@),
{
    let mut i: usize = 0;
    while i < 32
        invariant
            i <= 32,
            forall|k: int| 0 <= k < i ==> a@[k] == b@[k],
        decreases 32 - i,
    {
        if a[i] != b[i] {
            return false;
        }
        i += 1;
    }
    proof {
        assert(a@ =~= b@);
    }
    true
}

/// A scan that found no equal earlier entry for slot `j` (or a zero there)
/// extends a duplicate-free prefix by one slot.
proof fn lemma_extend_no_dup(s: Seq<u8>, j: int)
    requires
        0 <= j < s.len(),
        !has_dup_nonzero(s.take(j)),
        s[j] != 0 ==> forall|k: int| 0 <= k < j ==> s[k] != s[j],
    ensures
        !has_dup_nonzero(s.take(j + 1)),
{
    let t = s.take(j + 1);
    assert forall|p: int, q: int|
        #![trigger t[p], t[q]]
        0 <= p < q < t.len() && t[p] == t[q] implies t[q] == 0 by {
        if q < j {
            if t[q] != 0 {
                assert(s.take(j)[p] == s[p] && s.take(j)[q] == s[q]);
                assert(has_dup_nonzero(s.take(j)));
            }
        } else {
            assert(t[q] == s[j] && t[p] == s[p]);
        }
    }
    if has_dup_nonzero(t) {
        let (p, q): (int, int) = choose|p: int, q: int|
            0 <= p < q < t.len() && t[p] == t[q] && t[q] != 0;
        assert(false);
    }
}

/// Decide whether a preference sequence repeats a non-zero value, scanning
/// left to right exactly as `has_dup_nonzero` describes.
pub fn has_duplicate(preferences: &Vec<u8>) -> (r: bool)
    ensures
        r == has_dup_nonzero(preferences@),
{
    let n = preferences.len();
    let mut j: usize = 0;
    while j < n
        invariant
            j <= n,
            n == preferences@.len(),
            !has_dup_nonzero(preferences@.take(j as int)),
        decreases n - j,
    {
        if preferences[j] != 0 {
            let mut i: usize = 0;
            while i < j
                invariant
                    i <= j < n,
                    n == preferences@.len(),
                    preferences@[j as int] != 0,
                    forall|k: int| 0 <= k < i ==> preferences@[k] != preferences@[j as int],
                decreases j - i,
            {
                if preferences[i] == preferences[j] {
                    proof {
                        assert(preferences@[i as int] == preferences@[j as int]
                            && preferences@[j as int] != 0);
                        assert(has_dup_nonzero(preferences@));
                    }
                    return true;
                }
                i += 1;
            }
            proof {
                lemma_extend_no_dup(preferences@, j as int);
            }
        } else {
            proof {
                lemma_extend_no_dup(preferences@, j as int);
            }
        }
        j += 1;
    }
    proof {
        assert(preferences@.take(n as int) =~= preferences@);
    }
    false
}

impl BallotPaper {
    /// A fresh election: the given slate with every total at zero, no ballots
    /// on record, and the given metadata. Nothing can fail here.
    pub fn create(year: u16, location: String, candidate_names: Vec<String>) -> (r: Self)
        ensures
            r@.wf(),
            r@.year == year,
            r@.location == location@,
            r@.records.len() == 0,
            r@.candidates.len() == candidate_names@.len(),
            forall|i: int|
                0 <= i < candidate_names@.len() ==> (#[trigger] r@.candidates[i]).name
                    == candidate_names@[i]@ && r@.candidates[i].points == 0,
    {
        let mut results: Vec<Candidate> = Vec::new();
        let n = candidate_names.len();
        let mut i: usize = 0;
        while i < n
            invariant
                i <= n,
                n == candidate_names@.len(),
                results@.len() == i,
                forall|k: int|
                    0 <= k < i ==> (#[trigger] results@[k]).name@ == candidate_names@[k]@
                        && results@[k].points == 0,
            decreases n - i,
        {
            results.push(Candidate { name: candidate_names[i].clone(), points: 0 });
            i += 1;
        }
        let r = BallotPaper { year, location, results, votes: Vec::new() };
        proof {
            assert(r@.records =~= Seq::<BallotRecordView>::empty());
            assert forall|k: int| 0 <= k < r@.candidates.len() implies (
            #[trigger] r@.candidates[k]).points as int == tally_sum(r@.records, k) by {
                assert(tally_sum(r@.records, k) == 0);
            }
        }
        r
    }

    /// The fixed election this ledger was written for: year 2020, location
    /// NORTH HUDSON, and a five-candidate slate, all totals at zero.
    pub fn init() -> (r: Self)
        ensures
            r@.wf(),
            r@.year == 2020,
            r@.location == "NORTH HUDSON"@,
            r@.records.len() == 0,
            r@.candidates.len() == 5,
            r@.candidates[0].name == "AYIREBI, CECIL (LIBERAL)"@,
            r@.candidates[1].name == "BUTLER, DIONE (REPUBLICAN)"@,
            r@.candidates[2].name == "GARSIDE, CHARLES (LABOUR)"@,
            r@.candidates[3].name == "KING, STUART (DEMOCRATIC)"@,
            r@.candidates[4].name == "WHITWELL, FRANK (GREEN)"@,
            forall|i: int| 0 <= i < 5 ==> (#[trigger] r@.candidates[i]).points == 0,
    {
        let mut names: Vec<String> = Vec::new();
        names.push("AYIREBI, CECIL (LIBERAL)".to_owned());
        names.push("BUTLER, DIONE (REPUBLICAN)".to_owned());
        names.push("GARSIDE, CHARLES (LABOUR)".to_owned());
        names.push("KING, STUART (DEMOCRATIC)".to_owned());
        names.push("WHITWELL, FRANK (GREEN)".to_owned());
        BallotPaper::create(2020, "NORTH HUDSON".to_owned(), names)
    }

    /// Pure lookup: has this identity a ballot on record?
    pub fn has_voted(&self, identity: &[u8; 32]) -> (r: bool)
        ensures
            r == self@.voted(identity@),
    {
        let n = self.votes.len();
        let mut k: usize = 0;
        while k < n
            invariant
                k <= n,
                n == self.votes@.len(),
                forall|m: int| 0 <= m < k ==> (#[trigger] self@.records[m]).voter != identity@,
            decreases n - k,
        {
            if ids_equal(&self.votes[k].voter, identity) {
                proof {
                    assert(self@.records[k as int].voter == identity@);
                }
                return true;
            }
            k += 1;
        }
        false
    }

    /// Insert `identity -> ballot` into the ledger's mapping. This is the
    /// only mutation entry point; validation is its caller's business, and
    /// the identity must not be on record yet (write-once).
    pub fn record(&mut self, identity: [u8; 32], ballot: Vec<Vote>)
        requires
            !old(self)@.voted(identity@),
        ensures
            final(self)@.records == old(self)@.records.push(
                BallotRecordView { voter: identity@, ballot: ballot@.map_values(|v: Vote| v@) },
            ),
            final(self)@.year == old(self)@.year,
            final(self)@.location == old(self)@.location,
            final(self)@.candidates == old(self)@.candidates,
    {
        let ghost pre = self@;
        let ghost b = ballot@.map_values(|v: Vote| v@);
        self.votes.push(BallotRecord { voter: identity, ballot });
        proof {
            assert(self@.records =~= pre.records.push(BallotRecordView { voter: identity@, ballot: b }));
        }
    }

    /// Submit a ballot. The checks run in order, first failure wins: a second
    /// submission from the same identity, then a repeated non-zero
    /// preference. An admitted ballot is folded into the running totals and
    /// recorded as one atomic unit; a rejected one leaves the state unchanged.
    #[verifier::loop_isolation(false)]
    pub fn send_vote(&mut self, voter: [u8; 32], preferences: Vec<u8>) -> (r: Result<
        (),
        VoteError,
    >)
        requires
            old(self)@.wf(),
            old(self)@.admits(voter@, preferences@) ==> old(self)@.can_apply(preferences@),
        ensures
            final(self)@.wf(),
            final(self)@.year == old(self)@.year,
            final(self)@.location == old(self)@.location,
            old(self)@.voted(voter@) ==> r == Err::<(), VoteError>(VoteError::AlreadyVoted)
                && final(self)@ == old(self)@,
            !old(self)@.voted(voter@) && has_dup_nonzero(preferences@) ==> r
                == Err::<(), VoteError>(VoteError::DuplicatePreference)
                && final(self)@ == old(self)@,
            old(self)@.admits(voter@, preferences@) ==> {
                &&& r == Ok::<(), VoteError>(())
                &&& final(self)@.records == old(self)@.records.push(
                    BallotRecordView {
                        voter: voter@,
                        ballot: spec_ballot(old(self)@.candidates, preferences@),
                    },
                )
                &&& final(self)@.candidates.len() == old(self)@.candidates.len()
                &&& forall|i: int|
                    0 <= i < old(self)@.candidates.len()
                        ==> (#[trigger] final(self)@.candidates[i]).name
                            == old(self)@.candidates[i].name
                        && final(self)@.candidates[i].points as int
                            == old(self)@.candidates[i].points
                            + contribution(spec_ballot(old(self)@.candidates, preferences@), i)
            },
    {
        if self.has_voted(&voter) {
            return Err(VoteError::AlreadyVoted);
        }
        if has_duplicate(&preferences) {
            return Err(VoteError::DuplicatePreference);
        }
        let ghost pre = self@;
        let ghost sb = spec_ballot(pre.candidates, preferences@);
        let mut ballot: Vec<Vote> = Vec::new();
        let n = preferences.len();
        let mut i: usize = 0;
        while i < n
            invariant
                i <= n,
                ballot@.len() == i,
                self.results@.len() == pre.candidates.len(),
                self.year == old(self).year,
                self.location == old(self).location,
                self.votes == old(self).votes,
                forall|k: int| 0 <= k < i ==> (#[trigger] ballot@[k])@ == sb[k],
                forall|k: int|
                    0 <= k < self.results@.len() ==> (#[trigger] self.results@[k]).name@
                        == pre.candidates[k].name,
                forall|k: int|
                    i <= k < self.results@.len() ==> (#[trigger] self.results@[k]).points
                        == pre.candidates[k].points,
                forall|k: int|
                    0 <= k < i ==> (#[trigger] self.results@[k]).points as int
                        == pre.candidates[k].points + preferences@[k],
            decreases n - i,
        {
            let name = self.results[i].name.clone();
            let pts = preferences[i];
            ballot.push(Vote { candidate: name, points: pts });
            let total = self.results[i].points;
            self.results[i].points = total + (pts as u64);
            i += 1;
        }
        proof {
            assert(ballot@.map_values(|v: Vote| v@) =~= sb);
            assert(self@.records =~= pre.records);
        }
        let ghost mid = self@;
        self.record(voter, ballot);
        proof {
            let post = self@;
            let newrec = BallotRecordView { voter: voter@, ballot: sb };
            assert(post.records == mid.records.push(newrec));
            assert(post.records =~= pre.records.push(newrec));
            assert(post.candidates == mid.candidates);
            assert(post.records.drop_last() =~= pre.records);
            assert(post.records.last() == newrec);
            // every voter still appears at most once
            assert forall|p: int, q: int| 0 <= p < q < post.records.len() implies (
            #[trigger] post.records[p]).voter != (#[trigger] post.records[q]).voter by {
                if q < post.records.len() - 1 {
                    assert(post.records[p] == pre.records[p]);
                    assert(post.records[q] == pre.records[q]);
                } else {
                    assert(post.records[p] == pre.records[p]);
                    assert(post.records[q].voter == voter@);
                    assert(pre.records[p].voter != voter@);
                }
            }
            // every ballot, the new one included, still fits the slate
            assert forall|k: int| 0 <= k < post.records.len() implies ballot_wf(
                post.candidates,
                (#[trigger] post.records[k]).ballot,
            ) by {
                if k < post.records.len() - 1 {
                    assert(post.records[k] == pre.records[k]);
                    assert(ballot_wf(pre.candidates, pre.records[k].ballot));
                }
            }
            // each total is again the sum of the ballots' contributions
            assert forall|c: int| 0 <= c < post.candidates.len() implies (
            #[trigger] post.candidates[c]).points as int == tally_sum(post.records, c) by {
                assert(tally_sum(post.records, c) == tally_sum(pre.records, c) + contribution(
                    sb,
                    c,
                ));
                assert(pre.candidates[c].points as int == tally_sum(pre.records, c));
            }
        }
        Ok(())
    }

    /// The slate's display names, one per line, in slate order.
    pub fn get_candidates(&self) -> (r: String)
        ensures
            r@ == spec_joined(self@.candidate_names()),
            r@ == query_text(self@, Query::Candidates),
    {
        let mut names: Vec<String> = Vec::new();
        let n = self.results.len();
        let mut i: usize = 0;
        while i < n
            invariant
                i <= n,
                n == self.results@.len(),
                names@.len() == i,
                forall|k: int| 0 <= k < i ==> (#[trigger] names@[k])@ == self@.candidates[k].name,
            decreases n - i,
        {
            names.push(self.results[i].name.clone());
            i += 1;
        }
        let r = join_lines(&names);
        proof {
            assert(names@.map_values(|s: String| s@) =~= self@.candidate_names());
        }
        r
    }

    /// The election year, as its decimal numeral.
    pub fn get_vote_year(&self) -> (r: String)
        ensures
            r@ == spec_dec(self@.year as nat),
            r@ == query_text(self@, Query::Year),
    {
        dec_u16(self.year)
    }

    /// The election location.
    pub fn get_location(&self) -> (r: String)
        ensures
            r@ == self@.location,
            r@ == query_text(self@, Query::Location),
    {
        self.location.clone()
    }

    /// For every candidate in slate order, its display name and accumulated
    /// total, serialized as a sequence of records. All totals read as zero
    /// before any ballot is accepted.
    pub fn get_vote_results(&self) -> (r: String)
        ensures
            r@ == spec_results_json(self@.candidate_names(), self@.candidate_points()),
            r@ == query_text(self@, Query::Results),
    {
        let mut names: Vec<String> = Vec::new();
        let mut points: Vec<u64> = Vec::new();
        let n = self.results.len();
        let mut i: usize = 0;
        while i < n
            invariant
                i <= n,
                n == self.results@.len(),
                names@.len() == i,
                points@.len() == i,
                forall|k: int| 0 <= k < i ==> (#[trigger] names@[k])@ == self@.candidates[k].name,
                forall|k: int| 0 <= k < i ==> points@[k] == (#[trigger] self@.candidates[k]).points,
            decreases n - i,
        {
            names.push(self.results[i].name.clone());
            points.push(self.results[i].points);
            i += 1;
        }
        let r = encode_results(&names, &points);
        proof {
            assert(names@.map_values(|s: String| s@) =~= self@.candidate_names());
            assert(points@ =~= self@.candidate_points());
        }
        r
    }

    /// How many candidates the slate holds.
    pub fn candidate_count(&self) -> (r: usize)
        ensures
            r == self@.candidates.len(),
    {
        self.results.len()
    }

    /// The accumulated total of the candidate at slot `i`.
    pub fn total_of(&self, i: usize) -> (r: u64)
        requires
            i < self@.candidates.len(),
        ensures
            r == self@.candidates[i as int].points,
    {
        self.results[i].points
    }

    /// The display name of the candidate at slot `i`.
    pub fn candidate_name(&self, i: usize) -> (r: String)
        requires
            i < self@.candidates.len(),
        ensures
            r@ == self@.candidates[i as int].name,
    {
        self.results[i].name.clone()
    }
}

/// The four read-only projections of the election state.
pub enum Query {
    Candidates,
    Year,
    Location,
    Results,
}

/// The text a query writes, as a function of the state alone.
pub open spec fn query_text(v: ElectionView, q: Query) -> Seq<char> {
    match q {
        Query::Candidates => spec_joined(v.candidate_names()),
        Query::Year => spec_dec(v.year as nat),
        Query::Location => v.location,
        Query::Results => spec_results_json(v.candidate_names(), v.candidate_points()),
    }
}

/// Queries are idempotent: a query's output is a function of the state
/// alone, every query's contract pins its output to `query_text`, and a
/// query borrows the state immutably, so issuing the same query twice
/// yields identical output both times.
pub proof fn lemma_query_idempotent(v: ElectionView, q: Query, r1: Seq<char>, r2: Seq<char>)
    requires
        r1 == query_text(v, q),
        r2 == query_text(v, q),
    ensures
        r1 == r2,
{
}

/// Aggregation correctness: in a well-formed election, each candidate's
/// accumulated total equals the sum, over all accepted ballots, of the
/// points contributed to its slot. `create` establishes well-formedness and
/// `send_vote` preserves it, so this holds of every reachable state.
pub proof fn lemma_total_is_sum_of_ballots(v: ElectionView, i: int)
    requires
        v.wf(),
        0 <= i < v.candidates.len(),
    ensures
        v.candidates[i].points as int == tally_sum(v.records, i),
{
}

/// Zero means abstention: a preference sequence whose repeated values are
/// all zero repeats no non-zero value, so duplication never rejects it.
pub proof fn lemma_repeated_zeros_admitted(prefs: Seq<u8>)
    requires
        forall|i: int, j: int| 0 <= i < j < prefs.len() && prefs[i] == prefs[j] ==> prefs[j] == 0,
    ensures
        !has_dup_nonzero(prefs),
{
    if has_dup_nonzero(prefs) {
        let (p, q): (int, int) = choose|p: int, q: int|
            0 <= p < q < prefs.len() && prefs[p] == prefs[q] && prefs[q] != 0;
        assert(false);
    }
}

} // verus!
