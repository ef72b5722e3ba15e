//! An election.
//!
//! Every voter is registered on the election's ledger with one unit. To
//! vote is to send that unit to a candidate, so a voter whose settled
//! balance is zero has voted, and a candidate's balance counts the votes.

use vstd::prelude::*;
use crate::chain::{
    address_views, admitted, committed, deserialized, genesis_block, rejection, settled_balance,
    BlockChain, LedgerView,
};
use crate::clock::now;
use crate::codec::json_chain;
use crate::keys::{all_zero, credential_seed, ed25519_public_key, generate_keys};
use crate::transaction::{
    opt_view, signature_text, transaction_validity, Transaction,
    TransactionView,
};
use crate::user::{voter_address, User};

verus! {

/// A refusal in the handling of elections, with the message for the caller.
#[derive(Debug)]
pub enum ElectionError {
    /// The request is not acceptable as it stands.
    ValidationError { content: String },
    /// A fault that is not the caller's, or a request that cannot be met.
    InternalError { content: String },
}

impl ElectionError {
    /// The message of the refusal.
    pub open spec fn content(self) -> Seq<char> {
        match self {
            ElectionError::ValidationError { content } => content@,
            ElectionError::InternalError { content } => content@,
        }
    }

    /// The message of the refusal.
    pub fn message(&self) -> (out: String)
        ensures
            out@ == self.content(),
    {
        match self {
            ElectionError::ValidationError { content } => content.clone(),
            ElectionError::InternalError { content } => content.clone(),
        }
    }

    /// The HTTP status that answers this refusal: 400 for a request that
    /// is not acceptable, 500 for any other.
    pub fn status_code(&self) -> (code: u16)
        ensures
            code == match self {
                ElectionError::ValidationError { .. } => 400u16,
                ElectionError::InternalError { .. } => 500u16,
            },
    {
        match self {
            ElectionError::ValidationError { .. } => 400,
            ElectionError::InternalError { .. } => 500,
        }
    }
}

/// An election as it is stored. `blockchain` is the ledger in wire format,
/// from the moment the election begins.
#[derive(Debug)]
pub struct Election {
    pub title: String,
    pub scope: String,
    pub scope_value: String,
    pub candidates: Vec<String>,
    pub voters: Vec<String>,
    pub status: String,
    pub blockchain: Option<String>,
}

/// What an election holds.
pub ghost struct ElectionView {
    pub title: Seq<char>,
    pub scope: Seq<char>,
    pub scope_value: Seq<char>,
    pub candidates: Seq<Seq<char>>,
    pub voters: Seq<Seq<char>>,
    pub status: Seq<char>,
    pub blockchain: Option<Seq<char>>,
}

impl View for Election {
    type V = ElectionView;

    open spec fn view(&self) -> ElectionView {
        ElectionView {
            title: self.title@,
            scope: self.scope@,
            scope_value: self.scope_value@,
            candidates: address_views(self.candidates@),
            voters: address_views(self.voters@),
            status: self.status@,
            blockchain: opt_view(self.blockchain),
        }
    }
}

/// The request to create an election.
#[derive(Debug)]
pub struct CreateElectionDTO {
    pub title: String,
    pub scope: String,
    pub scope_value: String,
    pub candidates: Vec<String>,
}

/// The request to cast a vote.
#[derive(Debug)]
pub struct VoteDTO {
    pub election_id: String,
    pub password: String,
    pub reg_no: String,
    pub candidate_id: String,
}

/// The request for a voter's status.
#[derive(Debug)]
pub struct StatusDTO {
    pub election_id: String,
    pub public_key: String,
}

/// A candidate's result.
#[derive(Debug)]
pub struct ResultDTO {
    pub name: String,
    pub reg_no: String,
    pub public_key: String,
    pub votes: i32,
}

/// The status of an election that has not begun.
pub open spec fn status_pending() -> Seq<char> {
    "PENDING"@
}

/// The status of an election that is open for votes.
pub open spec fn status_ongoing() -> Seq<char> {
    "ONGOING"@
}

/// The status of an election that has ended.
pub open spec fn status_ended() -> Seq<char> {
    "ENDED"@
}

/// What a request that cannot be met is refused with.
pub open spec fn msg_cannot_update() -> Seq<char> {
    "Error occurred trying to update election"@
}

/// What a person outside the election's scope is refused with.
pub open spec fn msg_out_of_scope() -> Seq<char> {
    "Invalid scope candidate"@
}

/// What a person who is not registered is refused with.
pub open spec fn msg_unknown_person() -> Seq<char> {
    "Invalid candidate passed"@
}

/// What a list of fewer than two candidates is refused with.
pub open spec fn msg_too_few_candidates() -> Seq<char> {
    "Invalid number of candidates"@
}

/// What is reported of a voter who has voted.
pub open spec fn voted() -> Seq<char> {
    "VOTED"@
}

/// What is reported of a voter who has not voted.
pub open spec fn not_voted() -> Seq<char> {
    "NOT_VOTED"@
}

/// Whether a person of this department and faculty may take part in an
/// election of this scope: a departmental election is for one department,
/// a faculty election for one faculty, any other for everyone.
pub open spec fn scope_admits(
    scope: Seq<char>,
    scope_value: Seq<char>,
    department: Seq<char>,
    faculty: Seq<char>,
) -> bool {
    if scope == "DEPARTMENT"@ {
        department == scope_value
    } else if scope == "FACAULTY"@ {
        faculty == scope_value
    } else {
        true
    }
}

/// Whether `r` is an internal error with `message`.
pub open spec fn is_internal_error<T>(r: Result<T, ElectionError>, message: Seq<char>) -> bool {
    r matches Err(ElectionError::InternalError { content }) && content@ == message
}

/// Whether `r` is a validation error with `message`.
pub open spec fn is_validation_error<T>(r: Result<T, ElectionError>, message: Seq<char>) -> bool {
    r matches Err(ElectionError::ValidationError { content }) && content@ == message
}

/// Whether `user` may take part in an election of this scope.
pub fn user_in_scope(scope: &String, scope_value: &String, user: &User) -> (r: bool)
    ensures
        r == scope_admits(scope@, scope_value@, user.department@, user.facaulty@),
{
    if *scope == "DEPARTMENT".to_owned() {
        user.department == *scope_value
    } else if *scope == "FACAULTY".to_owned() {
        user.facaulty == *scope_value
    } else {
        true
    }
}

/// Whether the person that a lookup found may take part in an election of
/// this scope: nobody found is an internal error, a person outside the
/// scope a validation error.
pub fn check_member(scope: &String, scope_value: &String, found: &Option<User>) -> (r: Result<
    (),
    ElectionError,
>)
    ensures
        match found {
            None => is_internal_error(r, msg_unknown_person()),
            Some(user) => if scope_admits(
                scope@,
                scope_value@,
                user.department@,
                user.facaulty@,
            ) {
                r is Ok
            } else {
                is_validation_error(r, msg_out_of_scope())
            },
        },
{
    match found {
        None => Err(ElectionError::InternalError { content: "Invalid candidate passed".to_owned() }),
        Some(user) => {
            if user_in_scope(scope, scope_value, user) {
                Ok(())
            } else {
                Err(
                    ElectionError::ValidationError {
                        content: "Invalid scope candidate".to_owned(),
                    },
                )
            }
        },
    }
}

/// A copy of a list of strings.
pub(crate) fn clone_strings(v: &Vec<String>) -> (out: Vec<String>)
    ensures
        address_views(out@) == address_views(v@),
{
    let mut out: Vec<String> = Vec::new();
    let mut i: usize = 0;
    while i < v.len()
        invariant
            i <= v.len(),
            out.len() == i,
            forall|j: int| 0 <= j < i ==> (#[trigger] out@[j])@ == v@[j]@,
        decreases v.len() - i,
    {
        out.push(v[i].clone());
        i += 1;
    }
    assert(address_views(out@) =~= address_views(v@));
    out
}

impl CreateElectionDTO {
    /// Whether the request names enough candidates: at least two.
    pub fn check_candidates(&self) -> (r: Result<(), ElectionError>)
        ensures
            if self.candidates@.len() < 2 {
                is_internal_error(r, msg_too_few_candidates())
            } else {
                r is Ok
            },
    {
        if self.candidates.len() < 2 {
            Err(ElectionError::InternalError { content: "Invalid number of candidates".to_owned() })
        } else {
            Ok(())
        }
    }
}

/// The ledger that an election's text is loaded into: that of no addresses.
pub open spec fn empty_ledger() -> LedgerView {
    LedgerView { chain: seq![genesis_block(Seq::empty(), 0)], pending: Seq::empty() }
}

/// The ballot of the voter with these credentials for `candidate`: one
/// unit from the voter's address, signed with the voter's key.
pub open spec fn ballot(
    password: Seq<char>,
    reg_no: Seq<char>,
    candidate: Seq<char>,
    timestamp: i64,
) -> TransactionView {
    let seed = credential_seed(password, reg_no);
    let unsigned = TransactionView {
        from: voter_address(password, reg_no),
        to: candidate,
        amount: 1,
        timestamp,
        signature: None,
    };
    TransactionView {
        signature: Some(signature_text(seed + ed25519_public_key(seed), unsigned)),
        ..unsigned
    }
}

/// The election after the vote, if the vote counts. It does not where the
/// credentials give no key pair, the election has no ledger, the voter is
/// the candidate, or the ledger refuses the ballot. Where it counts, the
/// ledger holds the ballot, committed, and the election is ongoing.
pub open spec fn vote_outcome(
    e: ElectionView,
    password: Seq<char>,
    reg_no: Seq<char>,
    candidate: Seq<char>,
    timestamp: i64,
) -> Option<ElectionView> {
    if all_zero(credential_seed(password, reg_no)) || candidate == voter_address(password, reg_no) {
        None
    } else {
        match e.blockchain {
            None => None,
            Some(text) => {
                let ledger = deserialized(empty_ledger(), text);
                let t = ballot(password, reg_no, candidate, timestamp);
                if rejection(ledger, t, transaction_validity(t) == Ok::<bool, Seq<char>>(true))
                    is Some {
                    None
                } else {
                    Some(
                        ElectionView {
                            status: status_ongoing(),
                            blockchain: Some(
                                json_chain(
                                    committed(admitted(ledger, t, timestamp), timestamp).chain,
                                ),
                            ),
                            ..e
                        },
                    )
                }
            },
        }
    }
}

fn cannot_update<T>() -> (r: Result<T, ElectionError>)
    ensures
        is_internal_error(r, msg_cannot_update()),
{
    Err(
        ElectionError::InternalError {
            content: "Error occurred trying to update election".to_owned(),
        },
    )
}

impl Election {
    /// The election that a request creates: not begun, without a ledger,
    /// and with the candidates as its first voters.
    pub fn create(data: &CreateElectionDTO) -> (e: Election)
        ensures
            e@ == (ElectionView {
                title: data.title@,
                scope: data.scope@,
                scope_value: data.scope_value@,
                candidates: address_views(data.candidates@),
                voters: address_views(data.candidates@),
                status: status_pending(),
                blockchain: None,
            }),
    {
        Election {
            title: data.title.clone(),
            scope: data.scope.clone(),
            scope_value: data.scope_value.clone(),
            candidates: clone_strings(&data.candidates),
            voters: clone_strings(&data.candidates),
            status: "PENDING".to_owned(),
            blockchain: None,
        }
    }

    /// Begins the election at `timestamp`: an election that has not begun
    /// becomes ongoing, with a new ledger of its voters. Any other is
    /// refused and stays as it is.
    pub fn begin_at(&mut self, timestamp: i64) -> (r: Result<(), ElectionError>)
        ensures
            if old(self)@.status == status_pending() {
                &&& r is Ok
                &&& final(self)@ == (ElectionView {
                    status: status_ongoing(),
                    blockchain: Some(
                        json_chain(seq![genesis_block(old(self)@.voters, timestamp)]),
                    ),
                    ..old(self)@
                })
            } else {
                is_internal_error(r, msg_cannot_update()) && final(self)@ == old(self)@
            },
    {
        if self.status == "PENDING".to_owned() {
            let mut ledger = BlockChain::new_at(Box::new(clone_strings(&self.voters)), timestamp);
            let text = ledger.serialize_at(timestamp);
            self.status = "ONGOING".to_owned();
            self.blockchain = Some(text);
            Ok(())
        } else {
            cannot_update()
        }
    }

    /// Begins the election now.
    pub fn begin(&mut self) -> (r: Result<(), ElectionError>)
        ensures
            if old(self)@.status == status_pending() {
                &&& r is Ok
                &&& exists|timestamp: i64|
                    final(self)@ == (ElectionView {
                        status: status_ongoing(),
                        blockchain: Some(
                            json_chain(
                                seq![#[trigger] genesis_block(old(self)@.voters, timestamp)],
                            ),
                        ),
                        ..old(self)@
                    })
            } else {
                is_internal_error(r, msg_cannot_update()) && final(self)@ == old(self)@
            },
    {
        self.begin_at(now())
    }

    /// Ends the election: an ongoing election becomes ended. Any other is
    /// refused and stays as it is.
    pub fn end(&mut self) -> (r: Result<(), ElectionError>)
        ensures
            if old(self)@.status == status_ongoing() {
                r is Ok && final(self)@ == (ElectionView { status: status_ended(), ..old(self)@ })
            } else {
                is_internal_error(r, msg_cannot_update()) && final(self)@ == old(self)@
            },
    {
        if self.status == "ONGOING".to_owned() {
            self.status = "ENDED".to_owned();
            Ok(())
        } else {
            cannot_update()
        }
    }

    /// The election's ledger, if it has one.
    pub fn ledger(&self) -> (r: Option<BlockChain>)
        ensures
            match r {
                Some(ledger) => self@.blockchain matches Some(text) && ledger@ == deserialized(
                    empty_ledger(),
                    text,
                ) && ledger@.well_formed(),
                None => self@.blockchain is None,
            },
    {
        match &self.blockchain {
            Some(text) => Some(BlockChain::from_string(text.clone())),
            None => None,
        }
    }

    /// Casts the vote of `data` at `timestamp`: the voter's ballot for the
    /// candidate is signed, put to the election's ledger and committed. A
    /// vote that does not count is refused and changes nothing.
    pub fn cast_vote_at(&mut self, data: &VoteDTO, timestamp: i64) -> (r: Result<
        (),
        ElectionError,
    >)
        ensures
            match vote_outcome(
                old(self)@,
                data.password@,
                data.reg_no@,
                data.candidate_id@,
                timestamp,
            ) {
                Some(after) => r is Ok && final(self)@ == after,
                None => is_internal_error(r, msg_cannot_update()) && final(self)@ == old(self)@,
            },
    {
        let keys = match generate_keys(&data.password, &data.reg_no) {
            Some(keys) => keys,
            None => {
                return cannot_update();
            },
        };
        let pk = keys.pk.to_address();
        if data.candidate_id == pk {
            return cannot_update();
        }
        let mut blockchain = match self.ledger() {
            Some(ledger) => ledger,
            None => {
                return cannot_update();
            },
        };
        let mut transaction = Transaction::new_at(pk, data.candidate_id.clone(), 1, timestamp);
        assert(keys.sk.bytes@.subrange(32, 64) =~= keys.pk.bytes@);
        let sign_result = transaction.sign(keys.sk);
        let result = blockchain.add_transaction_at(transaction, timestamp);
        if sign_result.is_ok() && result.is_ok() {
            let serialized = blockchain.serialize_at(timestamp);
            self.status = "ONGOING".to_owned();
            self.blockchain = Some(serialized);
            Ok(())
        } else {
            cannot_update()
        }
    }

    /// Casts the vote of `data` now.
    pub fn cast_vote(&mut self, data: &VoteDTO) -> (r: Result<(), ElectionError>)
        ensures
            exists|timestamp: i64|
                match #[trigger] vote_outcome(
                    old(self)@,
                    data.password@,
                    data.reg_no@,
                    data.candidate_id@,
                    timestamp,
                ) {
                    Some(after) => r is Ok && final(self)@ == after,
                    None => {
                        &&& is_internal_error(r, msg_cannot_update())
                        &&& final(self)@ == old(self)@
                    },
                },
    {
        self.cast_vote_at(data, now())
    }

    /// Whether the holder of the key in `data` has voted: in an ongoing election
    /// a voter whose settled balance is zero has. Of an election that is
    /// not ongoing, nobody has. An ongoing election without a ledger is an
    /// error.
    pub fn voter_status(&self, data: &StatusDTO) -> (r: Result<String, ElectionError>)
        ensures
            if self@.status != status_ongoing() {
                r matches Ok(s) && s@ == not_voted()
            } else {
                match self@.blockchain {
                    None => is_internal_error(r, msg_cannot_update()),
                    Some(text) => r matches Ok(s) && s@ == (if settled_balance(
                        deserialized(empty_ledger(), text).chain,
                        data.public_key@,
                    ) == 0 {
                        voted()
                    } else {
                        not_voted()
                    }),
                }
            },
    {
        if self.status == "ONGOING".to_owned() {
            match self.ledger() {
                Some(blockchain) => {
                    let balance = blockchain.get_address_balance(&data.public_key);
                    if balance == 0 {
                        Ok("VOTED".to_owned())
                    } else {
                        Ok("NOT_VOTED".to_owned())
                    }
                },
                None => cannot_update(),
            }
        } else {
            Ok("NOT_VOTED".to_owned())
        }
    }
}

/// The result of the candidate `user` on `ledger`: the votes are the
/// candidate's settled balance, cut to 32 bits. There is none for a person
/// without an address.
pub fn result_of(ledger: &BlockChain, user: &User) -> (r: Option<ResultDTO>)
    requires
        ledger@.well_formed(),
    ensures
        match r {
            Some(result) => {
                &&& user.public_key matches Some(address)
                &&& result.public_key@ == address@
                &&& result.name@ == user.name@
                &&& result.reg_no@ == user.reg_no@
                &&& result.votes == settled_balance(ledger@.chain, address@) as i32
            },
            None => user.public_key is None,
        },
{
    match &user.public_key {
        Some(address) => {
            let balance = ledger.get_address_balance(address);
            Some(
                ResultDTO {
                    name: user.name.clone(),
                    reg_no: user.reg_no.clone(),
                    public_key: address.clone(),
                    votes: #[verifier::truncate] (balance as i32),
                },
            )
        },
        None => None,
    }
}

} // verus!
