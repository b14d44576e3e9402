//! Governance arguments of the command-line tools: voting thresholds and
//! durations, proposal types, vote decisions, and the checks made before a
//! proposal is submitted, a vote cast or a proposal executed.
use vstd::prelude::*;
use vstd::string::*;
use vstd::utf8::encode_utf8;
use crate::json::{JsonValue, json_reading, read_json};
use crate::text::{
    chars_of, contains_char, decimal_digits, decimal_text, has_prefix, lowercase,
    parse_unsigned, parse_unsigned_decimal, starts_with, str_eq, string_from_chars, to_lowercase,
};

verus! {

/// Errors reported by the command-line tools.
#[derive(Debug)]
pub enum CliError {
    InvalidArgument(String),
    SerializationError(String),
    ValidationError(String),
    IoError(String),
    IdentityError(String),
    DagError(String),
    NotFound(String),
    InvalidInput(String),
    Config(String),
    Other(String),
}

/// `r` is the success `expected` holds, or the `InvalidArgument` error whose
/// text `expected` holds.
pub open spec fn invalid_argument_outcome<T>(r: Result<T, CliError>, expected: Result<T, Seq<char>>) -> bool {
    match r {
        Ok(v) => expected == Ok::<T, Seq<char>>(v),
        Err(CliError::InvalidArgument(m)) => expected == Err::<T, Seq<char>>(m@),
        Err(_) => false,
    }
}

/// How a number given after a `name:` prefix reads.
pub enum PercentReading {
    /// The text after the prefix holds another `:`.
    BadFormat,
    /// The text after the prefix is no number from 0 to 255.
    BadValue,
    /// The number is outside 1..=100.
    OutOfRange(u8),
    Fine(u8),
}

/// Reads `s[k..]` as a percentage the way the governance parsers do.
pub open spec fn percent_reading(s: Seq<char>, k: int) -> PercentReading {
    let tail = s.subrange(k, s.len() as int);
    if tail.contains(':') {
        PercentReading::BadFormat
    } else {
        match parse_unsigned(tail, 255) {
            None => PercentReading::BadValue,
            Some(p) => if 1 <= p && p <= 100 {
                PercentReading::Fine(p as u8)
            } else {
                PercentReading::OutOfRange(p as u8)
            },
        }
    }
}

/// Reads the number after the first `k` characters of `s`.
pub(crate) fn read_percent_after(s: &str, k: usize) -> (r: (PercentReading, String))
    requires
        k <= s@.len(),
    ensures
        r.0 == percent_reading(s@, k as int),
        r.1@ == s@.subrange(k as int, s@.len() as int),
{
    let cv = chars_of(s);
    let tail = string_from_chars(&cv, k, cv.len());
    if contains_char(&cv, k, ':') {
        return (PercentReading::BadFormat, tail);
    }
    match parse_unsigned_decimal(tail.as_str(), 255) {
        None => (PercentReading::BadValue, tail),
        Some(p) => {
            let b = p as u8;
            if 1 <= b && b <= 100 {
                (PercentReading::Fine(b), tail)
            } else {
                (PercentReading::OutOfRange(b), tail)
            }
        },
    }
}

/// How many votes a proposal needs to pass.
#[derive(Debug, Clone, Copy, PartialEq, Eq, Structural)]
pub enum VotingThreshold {
    Majority,
    Unanimous,
    Percentage(u8),
}

/// How long voting on a proposal stays open.
#[derive(Debug, Clone, Copy, PartialEq, Eq, Structural)]
pub enum VotingDuration {
    OpenEnded,
    /// A number of seconds.
    TimeBased(u64),
}

/// The kind of change a proposal asks for.
#[derive(Debug, Clone)]
pub enum ProposalType {
    TextProposal,
    ConfigChange,
    MemberAddition,
    MemberRemoval,
    CodeUpgrade,
    CodeExecution,
    Custom(String),
}

/// A member's answer to a proposal.
#[derive(Debug, Clone, Copy, PartialEq, Eq, Structural)]
pub enum VoteDecision {
    Yes,
    No,
    Abstain,
    Veto,
}

/// What a voting threshold argument means: `majority`, `unanimous`, or
/// `percentage:<n>` with `n` from 1 to 100; anything else is refused with the
/// text given.
pub open spec fn threshold_outcome(s: Seq<char>) -> Result<VotingThreshold, Seq<char>> {
    if s == "majority"@ {
        Ok(VotingThreshold::Majority)
    } else if s == "unanimous"@ {
        Ok(VotingThreshold::Unanimous)
    } else if has_prefix(s, "percentage:"@) {
        match percent_reading(s, 11) {
            PercentReading::BadFormat => Err(
                "Invalid percentage format: "@ + s + ". Expected 'percentage:<number>'"@),
            PercentReading::BadValue => Err("Invalid percentage value: "@ + s.subrange(11, s.len() as int)
                + ". Expected a number between 1 and 100"@),
            PercentReading::OutOfRange(p) => Err(
                "Percentage must be between 1 and 100, got: "@ + decimal_digits(p as nat)),
            PercentReading::Fine(p) => Ok(VotingThreshold::Percentage(p)),
        }
    } else {
        Err("Unsupported voting threshold: "@ + s
            + ". Valid values: majority, unanimous, percentage:<num>"@)
    }
}

/// Reads a voting threshold argument.
pub fn parse_voting_threshold(threshold_spec: &str) -> (r: Result<VotingThreshold, CliError>)
    ensures
        invalid_argument_outcome(r, threshold_outcome(threshold_spec@)),
{
    if str_eq(threshold_spec, "majority") {
        return Ok(VotingThreshold::Majority);
    }
    if str_eq(threshold_spec, "unanimous") {
        return Ok(VotingThreshold::Unanimous);
    }
    if starts_with(threshold_spec, "percentage:") {
        proof {
            reveal_strlit("percentage:");
        }
        let (reading, tail) = read_percent_after(threshold_spec, 11);
        return match reading {
            PercentReading::BadFormat => Err(CliError::InvalidArgument(
                "Invalid percentage format: ".to_owned().concat(threshold_spec)
                    .concat(". Expected 'percentage:<number>'"))),
            PercentReading::BadValue => Err(CliError::InvalidArgument(
                "Invalid percentage value: ".to_owned().concat(tail.as_str())
                    .concat(". Expected a number between 1 and 100"))),
            PercentReading::OutOfRange(p) => Err(CliError::InvalidArgument(
                "Percentage must be between 1 and 100, got: ".to_owned()
                    .concat(decimal_text(p as u64).as_str()))),
            PercentReading::Fine(p) => Ok(VotingThreshold::Percentage(p)),
        };
    }
    Err(CliError::InvalidArgument(
        "Unsupported voting threshold: ".to_owned().concat(threshold_spec)
            .concat(". Valid values: majority, unanimous, percentage:<num>")))
}

/// What a voting duration argument means: `openEnded`, or a number of seconds.
pub open spec fn duration_outcome(s: Seq<char>) -> Result<VotingDuration, Seq<char>> {
    if s == "openEnded"@ {
        Ok(VotingDuration::OpenEnded)
    } else {
        match parse_unsigned(s, u64::MAX as nat) {
            Some(n) => Ok(VotingDuration::TimeBased(n as u64)),
            None => Err("Invalid duration value: "@ + s
                + ". Expected a number of seconds or 'openEnded'"@),
        }
    }
}

/// Reads a voting duration argument.
pub fn parse_voting_duration(duration_spec: &str) -> (r: Result<VotingDuration, CliError>)
    ensures
        invalid_argument_outcome(r, duration_outcome(duration_spec@)),
{
    if str_eq(duration_spec, "openEnded") {
        return Ok(VotingDuration::OpenEnded);
    }
    match parse_unsigned_decimal(duration_spec, u64::MAX) {
        Some(n) => Ok(VotingDuration::TimeBased(n)),
        None => Err(CliError::InvalidArgument(
            "Invalid duration value: ".to_owned().concat(duration_spec)
                .concat(". Expected a number of seconds or 'openEnded'"))),
    }
}

/// The fixed proposal type names, lower-cased.
pub open spec fn proposal_type_names() -> Seq<Seq<char>> {
    seq!["textproposal"@, "configchange"@, "memberaddition"@, "memberremoval"@,
        "codeupgrade"@, "codeexecution"@]
}

/// Whether the lower-cased text `t` names a proposal type.
pub open spec fn known_proposal_type(t: Seq<char>) -> bool {
    proposal_type_names().contains(t)
        || (has_prefix(t, "custom:"@) && !t.subrange(7, t.len() as int).contains(':'))
}

/// Whether `p` is the proposal type the lower-cased text `t` names.
pub open spec fn names_proposal_type(p: ProposalType, t: Seq<char>) -> bool {
    match p {
        ProposalType::TextProposal => t == "textproposal"@,
        ProposalType::ConfigChange => t == "configchange"@,
        ProposalType::MemberAddition => t == "memberaddition"@,
        ProposalType::MemberRemoval => t == "memberremoval"@,
        ProposalType::CodeUpgrade => t == "codeupgrade"@,
        ProposalType::CodeExecution => t == "codeexecution"@,
        ProposalType::Custom(x) => has_prefix(t, "custom:"@) && x@ == t.subrange(7, t.len() as int),
    }
}

/// The text of the error for the proposal type argument `s`, lower-cased to `t`.
pub open spec fn proposal_type_error(s: Seq<char>, t: Seq<char>) -> Seq<char> {
    if has_prefix(t, "custom:"@) && !proposal_type_names().contains(t) {
        "Invalid custom proposal format: "@ + t + ". Expected 'custom:<type>'"@
    } else {
        "Unsupported proposal type: "@ + s
            + ". Valid values: textProposal, configChange, memberAddition, memberRemoval, codeUpgrade, codeExecution, custom:<type>"@
    }
}

/// Reads a proposal type argument, ignoring case. `custom:<type>` keeps the
/// lower-cased `<type>`.
pub fn parse_proposal_type(type_spec: &str) -> (r: Result<ProposalType, CliError>)
    ensures
        r is Ok <==> known_proposal_type(lowercase(type_spec@)),
        r matches Ok(p) ==> names_proposal_type(p, lowercase(type_spec@)),
        r matches Err(e) ==> (e matches CliError::InvalidArgument(m)
            && m@ == proposal_type_error(type_spec@, lowercase(type_spec@))),
{
    let t = to_lowercase(type_spec);
    let ts = t.as_str();
    proof {
        reveal_strlit("textproposal");
        reveal_strlit("configchange");
        reveal_strlit("memberaddition");
        reveal_strlit("memberremoval");
        reveal_strlit("codeupgrade");
        reveal_strlit("codeexecution");
        reveal_strlit("custom:");
    }
    if str_eq(ts, "textproposal") {
        return Ok(ProposalType::TextProposal);
    }
    if str_eq(ts, "configchange") {
        return Ok(ProposalType::ConfigChange);
    }
    if str_eq(ts, "memberaddition") {
        return Ok(ProposalType::MemberAddition);
    }
    if str_eq(ts, "memberremoval") {
        return Ok(ProposalType::MemberRemoval);
    }
    if str_eq(ts, "codeupgrade") {
        return Ok(ProposalType::CodeUpgrade);
    }
    if str_eq(ts, "codeexecution") {
        return Ok(ProposalType::CodeExecution);
    }
    assert(!proposal_type_names().contains(ts@)) by {
        assert(proposal_type_names()[0] == "textproposal"@);
        assert(proposal_type_names()[1] == "configchange"@);
        assert(proposal_type_names()[2] == "memberaddition"@);
        assert(proposal_type_names()[3] == "memberremoval"@);
        assert(proposal_type_names()[4] == "codeupgrade"@);
        assert(proposal_type_names()[5] == "codeexecution"@);
    }
    if starts_with(ts, "custom:") {
        let cv = chars_of(ts);
        if contains_char(&cv, 7, ':') {
            return Err(CliError::InvalidArgument(
                "Invalid custom proposal format: ".to_owned().concat(ts)
                    .concat(". Expected 'custom:<type>'")));
        }
        let name = string_from_chars(&cv, 7, cv.len());
        return Ok(ProposalType::Custom(name));
    }
    assert(!has_prefix(ts@, "custom:"@));
    Err(CliError::InvalidArgument(
        "Unsupported proposal type: ".to_owned().concat(type_spec).concat(
            ". Valid values: textProposal, configChange, memberAddition, memberRemoval, codeUpgrade, codeExecution, custom:<type>")))
}

/// What a vote decision argument means, ignoring case.
pub open spec fn decision_outcome(s: Seq<char>, t: Seq<char>) -> Result<VoteDecision, Seq<char>> {
    if t == "yes"@ {
        Ok(VoteDecision::Yes)
    } else if t == "no"@ {
        Ok(VoteDecision::No)
    } else if t == "abstain"@ {
        Ok(VoteDecision::Abstain)
    } else if t == "veto"@ {
        Ok(VoteDecision::Veto)
    } else {
        Err("Invalid vote decision: "@ + s + ". Valid values: yes, no, abstain, veto"@)
    }
}

/// Reads a vote decision argument (`yes`, `no`, `abstain` or `veto`, in any case).
pub fn parse_vote_decision(decision: &str) -> (r: Result<VoteDecision, CliError>)
    ensures
        invalid_argument_outcome(r, decision_outcome(decision@, lowercase(decision@))),
{
    let t = to_lowercase(decision);
    if str_eq(t.as_str(), "yes") {
        Ok(VoteDecision::Yes)
    } else if str_eq(t.as_str(), "no") {
        Ok(VoteDecision::No)
    } else if str_eq(t.as_str(), "abstain") {
        Ok(VoteDecision::Abstain)
    } else if str_eq(t.as_str(), "veto") {
        Ok(VoteDecision::Veto)
    } else {
        Err(CliError::InvalidArgument(
            "Invalid vote decision: ".to_owned().concat(decision)
                .concat(". Valid values: yes, no, abstain, veto")))
    }
}

/// Checks the arguments of a vote: the decision must read, and an amendment
/// must name the vote it amends.
pub fn check_vote_cast(decision: &str, amend: bool, previous_vote_id: &Option<String>) -> (r: Result<VoteDecision, CliError>)
    ensures
        invalid_argument_outcome(r,
            match decision_outcome(decision@, lowercase(decision@)) {
                Err(m) => Err(m),
                Ok(d) => if amend && previous_vote_id is None {
                    Err("previous_vote_id is required when amending a vote"@)
                } else {
                    Ok(d)
                },
            }),
{
    let d = parse_vote_decision(decision)?;
    if amend && previous_vote_id.is_none() {
        return Err(CliError::InvalidArgument(
            "previous_vote_id is required when amending a vote".to_owned()));
    }
    Ok(d)
}

/// Whether a proposal of this type must name the code it runs.
pub open spec fn needs_execution_cid(p: ProposalType) -> bool {
    p is CodeExecution || p is CodeUpgrade
}

/// What a proposal carries once its arguments are read.
#[derive(Debug)]
pub struct ProposalPlan {
    pub voting_threshold: VotingThreshold,
    pub voting_duration: VotingDuration,
    pub proposal_type: ProposalType,
    pub parameters: Option<JsonValue>,
    pub voting_start_time: u64,
    pub voting_end_time: Option<u64>,
}

/// The first refusal met while reading the arguments of a new proposal, in
/// the order they are checked: threshold, duration, type, parameters, and a
/// code proposal without the CID of its code.
pub open spec fn submission_error(
    threshold: Seq<char>,
    duration: Seq<char>,
    ptype: Seq<char>,
    parameters: Option<Seq<char>>,
    has_execution_cid: bool,
) -> Option<Seq<char>> {
    let t = lowercase(ptype);
    if threshold_outcome(threshold) is Err {
        Some(threshold_outcome(threshold)->Err_0)
    } else if duration_outcome(duration) is Err {
        Some(duration_outcome(duration)->Err_0)
    } else if !known_proposal_type(t) {
        Some(proposal_type_error(ptype, t))
    } else if parameters is Some && json_reading(encode_utf8(parameters->0)) is Err {
        Some("Invalid JSON parameters: "@ + json_reading(encode_utf8(parameters->0))->Err_0)
    } else if (t == "codeexecution"@ || t == "codeupgrade"@) && !has_execution_cid {
        Some("execution_cid is required for CodeExecution and CodeUpgrade proposal types"@)
    } else {
        None
    }
}

/// Reads and checks the arguments of a new proposal at time `now` (seconds
/// since the Unix epoch). Voting opens at `now` and, for a time-based
/// duration, closes that many seconds later.
pub fn plan_proposal_submission(
    voting_threshold: &str,
    voting_duration: &str,
    proposal_type: &str,
    parameters: &Option<String>,
    execution_cid: &Option<String>,
    now: u64,
) -> (r: Result<ProposalPlan, CliError>)
    requires
        duration_outcome(voting_duration@) matches Ok(VotingDuration::TimeBased(d)) ==> now + d <= u64::MAX,
    ensures
        ({
            let err = submission_error(voting_threshold@, voting_duration@, proposal_type@,
                match parameters { Some(p) => Some(p@), None => None }, execution_cid is Some);
            &&& (r is Err <==> err is Some)
            &&& (r matches Err(e) ==> (e matches CliError::InvalidArgument(m) && m@ == err->0))
        }),
        r matches Ok(plan) ==> {
            &&& threshold_outcome(voting_threshold@) == Ok::<VotingThreshold, Seq<char>>(plan.voting_threshold)
            &&& duration_outcome(voting_duration@) == Ok::<VotingDuration, Seq<char>>(plan.voting_duration)
            &&& names_proposal_type(plan.proposal_type, lowercase(proposal_type@))
            &&& (match parameters {
                None => plan.parameters is None,
                Some(p) => json_reading(encode_utf8(p@)) == Ok::<JsonValue, Seq<char>>(plan.parameters->0)
                    && plan.parameters is Some,
            })
            &&& plan.voting_start_time == now
            &&& plan.voting_end_time == match plan.voting_duration {
                VotingDuration::TimeBased(d) => Some((now + d) as u64),
                VotingDuration::OpenEnded => None,
            }
        },
{
    let threshold = match parse_voting_threshold(voting_threshold) {
        Ok(t) => t,
        Err(e) => { return Err(e); },
    };
    let duration = match parse_voting_duration(voting_duration) {
        Ok(d) => d,
        Err(e) => { return Err(e); },
    };
    let ptype = match parse_proposal_type(proposal_type) {
        Ok(p) => p,
        Err(e) => { return Err(e); },
    };
    proof {
        reveal_strlit("textproposal");
        reveal_strlit("configchange");
        reveal_strlit("memberaddition");
        reveal_strlit("memberremoval");
        reveal_strlit("codeexecution");
        reveal_strlit("codeupgrade");
        reveal_strlit("custom:");
    }
    let params = match parameters {
        Some(p) => match read_json(p.as_str().as_bytes()) {
            Ok(v) => Some(v),
            Err(e) => {
                return Err(CliError::InvalidArgument(
                    "Invalid JSON parameters: ".to_owned().concat(e.as_str())));
            },
        },
        None => None,
    };
    let end = match duration {
        VotingDuration::TimeBased(d) => Some(now + d),
        VotingDuration::OpenEnded => None,
    };
    let needs_code = match ptype {
        ProposalType::CodeExecution => true,
        ProposalType::CodeUpgrade => true,
        _ => false,
    };
    if needs_code && execution_cid.is_none() {
        return Err(CliError::InvalidArgument(
            "execution_cid is required for CodeExecution and CodeUpgrade proposal types".to_owned()));
    }
    assert("codeexecution"@.subrange(0, 7)[1] != "custom:"@[1]);
    assert("codeupgrade"@.subrange(0, 7)[1] != "custom:"@[1]);
    Ok(ProposalPlan {
        voting_threshold: threshold,
        voting_duration: duration,
        proposal_type: ptype,
        parameters: params,
        voting_start_time: now,
        voting_end_time: end,
    })
}

/// What executing a proposal comes to once its votes are tallied.
#[derive(Debug)]
pub enum ExecutionStep {
    /// The proposal has not passed; nothing is run.
    NotPassed,
    /// Only the quorum was to be checked.
    DryRun,
    /// Run the code with this CID.
    Execute(String),
}

/// Decides what to do with a tallied proposal: stop unless it passed, stop
/// after the check on a dry run, and otherwise run its code, which it must name.
pub fn decide_proposal_execution(passed: bool, dry_run: bool, execution_cid: &Option<String>) -> (r: Result<ExecutionStep, CliError>)
    ensures
        !passed ==> r matches Ok(ExecutionStep::NotPassed),
        passed && dry_run ==> r matches Ok(ExecutionStep::DryRun),
        passed && !dry_run && execution_cid is None ==> (r matches Err(CliError::InvalidArgument(m))
            && m@ == "Proposal doesn't contain executable code (missing execution_cid)"@),
        passed && !dry_run && execution_cid is Some ==> (r matches Ok(ExecutionStep::Execute(c))
            && c@ == execution_cid->0@),
{
    if !passed {
        return Ok(ExecutionStep::NotPassed);
    }
    if dry_run {
        return Ok(ExecutionStep::DryRun);
    }
    match execution_cid {
        Some(c) => Ok(ExecutionStep::Execute(c.clone())),
        None => Err(CliError::InvalidArgument(
            "Proposal doesn't contain executable code (missing execution_cid)".to_owned())),
    }
}

/// CLI commands for managing federation proposals
#[derive(Debug)]
pub enum ProposalCommands {
    /// Submit a new proposal to the federation
    Submit(SubmitProposalArgs),

    /// List all proposals in the federation
    List {
        /// Filter by proposal status
        status: Option<String>,

        /// Filter by proposal type
        proposal_type: Option<String>,

        /// Filter by submitter DID
        submitter: Option<String>,

        /// Maximum number of proposals to show
        limit: usize,
    },

    /// Show details of a specific proposal
    Show {
        /// Proposal ID or CID
        id: String,

        /// Show raw JSON output
        raw: bool,
    },

    /// Activate a draft proposal to start voting
    Activate {
        /// Proposal ID or CID
        id: String,

        /// Path to the key file for signing the update (JWK format)
        key_file: String,
    },

    /// Cancel a proposal
    Cancel {
        /// Proposal ID or CID
        id: String,

        /// Path to the key file for signing the update (JWK format)
        key_file: String,

        /// Reason for cancellation
        reason: Option<String>,
    },

    /// Execute a proposal that has passed quorum
    Execute {
        /// Proposal ID or CID
        id: String,

        /// Path to the key file for signing the execution (JWK format)
        key_file: String,

        /// Only verify quorum without executing the proposal
        dry_run: bool,

        /// Path to save the execution receipt
        output: Option<String>,
    },
}

/// Arguments for submitting a new proposal
#[derive(Debug)]
pub struct SubmitProposalArgs {
    /// Path to the key file for signing the proposal (JWK format)
    pub key_file: String,

    /// Federation DID
    pub federation: String,

    /// Proposal title
    pub title: String,

    /// Proposal description
    pub description: String,

    /// Proposal type (textProposal, codeExecution, configChange, memberAddition, memberRemoval, codeUpgrade, custom)
    pub proposal_type: String,

    /// Voting threshold (majority, unanimous, or percentage:<value>)
    pub voting_threshold: String,

    /// Voting duration in seconds (or 'openEnded')
    pub voting_duration: String,

    /// CID of code to execute (for codeExecution or codeUpgrade types)
    pub execution_cid: Option<String>,

    /// CID of the AgoraNet thread containing the proposal discussion
    pub thread_cid: Option<String>,

    /// Additional parameters (JSON format)
    pub parameters: Option<String>,

    /// Output file for the proposal credential (JSON format). If not provided, prints to stdout.
    pub output: Option<String>,
}

/// CLI commands for managing federation votes
#[derive(Debug)]
pub enum VoteCommands {
    /// Cast a vote on an active proposal
    Cast(CastVoteArgs),

    /// List all votes for a proposal
    List {
        /// Proposal ID to show votes for
        proposal_id: String,

        /// Filter by vote decision (yes, no, abstain, veto)
        decision: Option<String>,

        /// Filter by voter DID
        voter: Option<String>,

        /// Maximum number of votes to show
        limit: usize,
    },

    /// Show details of a specific vote
    Show {
        /// Vote ID or CID
        id: String,

        /// Show raw JSON output
        raw: bool,
    },

    /// Count votes for a proposal and determine outcome
    Tally {
        /// Proposal ID to tally votes for
        proposal_id: String,

        /// Path to the key file for signing the tally result (JWK format)
        key_file: String,
    },
}

/// Arguments for casting a vote
#[derive(Debug)]
pub struct CastVoteArgs {
    /// Path to the key file for signing the vote (JWK format)
    pub key_file: String,

    /// Federation DID
    pub federation: String,

    /// Proposal ID to vote on
    pub proposal_id: String,

    /// Vote decision (yes, no, abstain, veto)
    pub decision: String,

    /// Optional justification or comment for your vote
    pub justification: Option<String>,

    /// If this vote replaces a previous vote
    pub amend: bool,

    /// Previous vote ID if amending
    pub previous_vote_id: Option<String>,

    /// Output file for the vote credential (JSON format). If not provided, prints to stdout.
    pub output: Option<String>,
}

} // verus!
