use icn_runtime::governance::{
    check_vote_cast, decide_proposal_execution, parse_proposal_type, parse_vote_decision,
    parse_voting_duration, parse_voting_threshold, plan_proposal_submission, CliError, ExecutionStep,
    ProposalType, VoteDecision, VotingDuration, VotingThreshold,
};
use icn_runtime::json::JsonValue;

fn invalid_argument<T: std::fmt::Debug>(r: Result<T, CliError>) -> String {
    match r {
        Err(CliError::InvalidArgument(m)) => m,
        other => panic!("expected an invalid argument, got {:?}", other),
    }
}

#[test]
fn thresholds_read() {
    assert_eq!(parse_voting_threshold("majority").unwrap(), VotingThreshold::Majority);
    assert_eq!(parse_voting_threshold("unanimous").unwrap(), VotingThreshold::Unanimous);
    assert_eq!(parse_voting_threshold("percentage:67").unwrap(), VotingThreshold::Percentage(67));
    assert_eq!(parse_voting_threshold("percentage:100").unwrap(), VotingThreshold::Percentage(100));
    assert_eq!(parse_voting_threshold("percentage:+5").unwrap(), VotingThreshold::Percentage(5));
}

#[test]
fn threshold_errors() {
    assert_eq!(
        invalid_argument(parse_voting_threshold("percentage:1:2")),
        "Invalid percentage format: percentage:1:2. Expected 'percentage:<number>'"
    );
    assert_eq!(
        invalid_argument(parse_voting_threshold("percentage:abc")),
        "Invalid percentage value: abc. Expected a number between 1 and 100"
    );
    assert_eq!(
        invalid_argument(parse_voting_threshold("percentage:300")),
        "Invalid percentage value: 300. Expected a number between 1 and 100"
    );
    assert_eq!(
        invalid_argument(parse_voting_threshold("percentage:0")),
        "Percentage must be between 1 and 100, got: 0"
    );
    assert_eq!(
        invalid_argument(parse_voting_threshold("percentage:150")),
        "Percentage must be between 1 and 100, got: 150"
    );
    assert_eq!(
        invalid_argument(parse_voting_threshold("Majority")),
        "Unsupported voting threshold: Majority. Valid values: majority, unanimous, percentage:<num>"
    );
}

#[test]
fn durations_read() {
    assert_eq!(parse_voting_duration("openEnded").unwrap(), VotingDuration::OpenEnded);
    assert_eq!(parse_voting_duration("86400").unwrap(), VotingDuration::TimeBased(86400));
    assert_eq!(
        parse_voting_duration("18446744073709551615").unwrap(),
        VotingDuration::TimeBased(u64::MAX)
    );
    assert_eq!(
        invalid_argument(parse_voting_duration("18446744073709551616")),
        "Invalid duration value: 18446744073709551616. Expected a number of seconds or 'openEnded'"
    );
    assert_eq!(
        invalid_argument(parse_voting_duration("-1")),
        "Invalid duration value: -1. Expected a number of seconds or 'openEnded'"
    );
}

#[test]
fn proposal_types_read_in_any_case() {
    assert!(matches!(parse_proposal_type("TextProposal").unwrap(), ProposalType::TextProposal));
    assert!(matches!(parse_proposal_type("CODEEXECUTION").unwrap(), ProposalType::CodeExecution));
    assert!(matches!(parse_proposal_type("memberRemoval").unwrap(), ProposalType::MemberRemoval));
    match parse_proposal_type("Custom:Budget").unwrap() {
        ProposalType::Custom(t) => assert_eq!(t, "budget"),
        other => panic!("unexpected {:?}", other),
    }
    assert_eq!(
        invalid_argument(parse_proposal_type("custom:a:b")),
        "Invalid custom proposal format: custom:a:b. Expected 'custom:<type>'"
    );
    assert_eq!(
        invalid_argument(parse_proposal_type("Referendum")),
        "Unsupported proposal type: Referendum. Valid values: textProposal, configChange, memberAddition, memberRemoval, codeUpgrade, codeExecution, custom:<type>"
    );
}

#[test]
fn vote_decisions_read() {
    assert_eq!(parse_vote_decision("YES").unwrap(), VoteDecision::Yes);
    assert_eq!(parse_vote_decision("veto").unwrap(), VoteDecision::Veto);
    assert_eq!(
        invalid_argument(parse_vote_decision("maybe")),
        "Invalid vote decision: maybe. Valid values: yes, no, abstain, veto"
    );
    assert_eq!(check_vote_cast("No", false, &None).unwrap(), VoteDecision::No);
    assert_eq!(
        invalid_argument(check_vote_cast("No", true, &None)),
        "previous_vote_id is required when amending a vote"
    );
    assert_eq!(check_vote_cast("abstain", true, &Some("v1".to_string())).unwrap(), VoteDecision::Abstain);
}

#[test]
fn a_proposal_plan_opens_voting_now() {
    let plan = plan_proposal_submission("majority", "3600", "textProposal", &None, &None, 1000).unwrap();
    assert_eq!(plan.voting_start_time, 1000);
    assert_eq!(plan.voting_end_time, Some(4600));
    assert!(plan.parameters.is_none());
    let plan = plan_proposal_submission("unanimous", "openEnded", "configChange", &None, &None, 7).unwrap();
    assert_eq!(plan.voting_end_time, None);
}

#[test]
fn proposal_parameters_are_read_as_json() {
    let params = Some("{\"budget\": 12}".to_string());
    let plan = plan_proposal_submission("majority", "10", "textProposal", &params, &None, 0).unwrap();
    match plan.parameters {
        Some(JsonValue::Object(ms)) => {
            assert_eq!(ms.len(), 1);
            assert_eq!(ms[0].key, "budget");
        }
        other => panic!("unexpected {:?}", other),
    }
    let bad = Some("{budget".to_string());
    let m = invalid_argument(plan_proposal_submission("majority", "10", "textProposal", &bad, &None, 0));
    assert!(m.starts_with("Invalid JSON parameters: "), "{}", m);
}

#[test]
fn code_proposals_need_their_code() {
    assert_eq!(
        invalid_argument(plan_proposal_submission("majority", "10", "codeUpgrade", &None, &None, 0)),
        "execution_cid is required for CodeExecution and CodeUpgrade proposal types"
    );
    let cid = Some("bafy-code".to_string());
    assert!(plan_proposal_submission("majority", "10", "codeExecution", &None, &cid, 0).is_ok());
    // the first refusal is reported: a bad threshold before a bad type
    assert!(invalid_argument(plan_proposal_submission("most", "10", "nothing", &None, &None, 0))
        .starts_with("Unsupported voting threshold"));
}

#[test]
fn execution_follows_the_tally() {
    assert!(matches!(decide_proposal_execution(false, false, &None), Ok(ExecutionStep::NotPassed)));
    assert!(matches!(decide_proposal_execution(true, true, &None), Ok(ExecutionStep::DryRun)));
    match decide_proposal_execution(true, false, &Some("bafy1".to_string())) {
        Ok(ExecutionStep::Execute(c)) => assert_eq!(c, "bafy1"),
        other => panic!("unexpected {:?}", other),
    }
    assert_eq!(
        invalid_argument(decide_proposal_execution(true, false, &None)),
        "Proposal doesn't contain executable code (missing execution_cid)"
    );
}
