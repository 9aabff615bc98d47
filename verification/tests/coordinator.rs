use taste_app::coordinator::{
    filing_wakes, not_taken, restart, verdict, wake, wake_for, wake_for_filed, wake_for_review,
    watch, ChatFacts, ChatState, Errand, Step, Verdict, Wake, Watch, ANSWER_DEADLINE, MAX_RESTARTS,
};
use taste_app::environment::EnvironmentId;

fn facts(state: ChatState, turns: u64, idle_for_secs: Option<u64>) -> ChatFacts {
    ChatFacts {
        state,
        idle_for_secs,
        turns,
    }
}

const DEADLINE: u64 = ANSWER_DEADLINE;

/// The bug: a coordinator mid-turn at the deadline was respawned, and
/// the coordinator's chat is the one the USER talks to — so a
/// conversation got its agent killed under it every ten minutes.
#[test]
fn a_chat_that_is_still_producing_output_is_never_restarted() {
    // Mid-turn, a chunk arrived a second ago.
    assert_eq!(
        verdict(&facts(ChatState::Streaming, 4, Some(1)), 4),
        Verdict::StillAlive
    );
    // ...and mid-turn is not special: an idle chat that said something
    // recently is alive too (a queued prompt about to go out).
    assert_eq!(
        verdict(&facts(ChatState::Idle, 4, Some(30)), 4),
        Verdict::StillAlive
    );
}

/// The other half: the errand WAS answered, and the chat has moved on
/// to the user's next question. A turn ending ends the watch whatever
/// the chat is doing at the deadline.
#[test]
fn a_finished_turn_ends_the_watch_in_any_state() {
    for state in [
        ChatState::Idle,
        ChatState::Streaming,
        ChatState::Starting,
        ChatState::Disconnected,
        ChatState::AwaitingPermission,
    ] {
        assert_eq!(
            verdict(&facts(state, 5, Some(0)), 4),
            Verdict::Answered,
            "{state:?} after a completed turn"
        );
    }
}

/// What the deadline is actually for: nothing has happened at all.
#[test]
fn silence_for_the_whole_deadline_restarts_it() {
    assert!(matches!(
        verdict(&facts(ChatState::Streaming, 4, Some(DEADLINE)), 4),
        Verdict::Restart("it went quiet mid-turn")
    ));
    assert!(matches!(
        verdict(&facts(ChatState::Idle, 4, Some(DEADLINE + 90)), 4),
        Verdict::Restart("it went idle without finishing a turn")
    ));
    // Nothing has ever happened in there, which is not aliveness.
    assert!(matches!(
        verdict(&facts(ChatState::Disconnected, 0, None), 0),
        Verdict::Restart("it had no live agent")
    ));
    assert!(matches!(
        verdict(&facts(ChatState::Starting, 0, None), 0),
        Verdict::Restart("its session never came up")
    ));
}

/// A permission card outranks the activity check: the note names what
/// is stuck, and only the user can unstick it.
#[test]
fn a_permission_question_is_put_to_the_user_not_restarted_around() {
    assert_eq!(
        verdict(&facts(ChatState::AwaitingPermission, 4, Some(1)), 4),
        Verdict::NeedsTheUser
    );
    assert_eq!(
        verdict(
            &facts(ChatState::AwaitingPermission, 4, Some(DEADLINE * 6)),
            4
        ),
        Verdict::NeedsTheUser
    );
}

#[test]
fn only_other_filers_wake_the_coordinator() {
    // Its own filing is not news to it, and a reply that filed
    // something would wake it again.
    assert!(!filing_wakes(Some(&EnvironmentId::primary())));
    // Everyone else's is: a sub-agent's...
    assert!(filing_wakes(Some(&EnvironmentId::new("i-0007"))));
    // ...and the user's, which carries no environment at all.
    assert!(filing_wakes(None));
}

#[test]
fn a_filing_is_put_to_the_coordinator_as_triage() {
    let errand = Errand::Filed {
        id: "i-0012".into(),
        title: "The composer loses a half-typed follow-up".into(),
    };
    let prompt = errand.prompt();
    assert!(prompt.contains("i-0012"), "{prompt}");
    assert!(
        prompt.contains("The composer loses a half-typed follow-up"),
        "the title saves it a lookup: {prompt}"
    );
    assert!(
        prompt.contains("issue_reorder") && prompt.contains("issue_start"),
        "it is told the moves it has: {prompt}"
    );
    assert!(
        prompt.contains("Do not file anything in reply"),
        "the loop guard is in the words too, not only in the wiring: {prompt}"
    );
    assert_eq!(errand.subject(), "issue i-0012");
}

#[test]
fn a_restart_carries_the_errand_it_still_owes() {
    for errand in [
        Errand::Review(EnvironmentId::new("i-0007")),
        Errand::Filed {
            id: "i-0012".into(),
            title: "Something".into(),
        },
    ] {
        let resumed = errand.resume_prompt("it had no live agent");
        assert!(resumed.contains("it had no live agent"), "{resumed}");
        assert!(
            resumed.ends_with(&errand.prompt()),
            "the errand survives the restart: {resumed}"
        );
    }
}

fn review() -> Errand {
    Errand::Review(EnvironmentId::new("i-0007"))
}

/// Nobody to wake, an allowance to ask about, or a prompt to send.
#[test]
fn a_wake_up_is_sent_asked_about_or_dropped() {
    let errand = review();
    assert_eq!(wake_for(&errand, false, Some("at 15:00")), Wake::Nobody);
    assert_eq!(
        wake_for(&errand, true, None),
        Wake::Send {
            prompt: errand.prompt()
        }
    );
    assert_eq!(
        wake_for(&errand, true, Some("at 15:00")),
        Wake::AskFirst {
            toast: "i-0007 is ready for review, but the session allowance is exhausted (reopens \
                    at 15:00) — the coordinator was not woken"
                .into(),
            prompt: errand.prompt(),
        }
    );
    let filed = Errand::Filed {
        id: "i-0012".into(),
        title: "Something".into(),
    };
    assert_eq!(
        filed.toast("soon"),
        "i-0012 was filed (\"Something\"), but the session allowance is exhausted (reopens soon) \
         — the coordinator was not woken"
    );
}

#[test]
fn the_two_things_that_wake_it_name_their_errand() {
    let env = EnvironmentId::new("i-0007");
    let (sent, errand) = wake_for_review(&env, true, None);
    assert_eq!(errand, review());
    assert_eq!(
        sent,
        Wake::Send {
            prompt: review().prompt()
        }
    );
    assert_eq!(errand.subject(), "the review of i-0007");
    assert!(errand
        .prompt()
        .starts_with("Environment i-0007 is flagged for review: its agent says issue i-0007 is"));

    let primary = EnvironmentId::primary();
    let (own, errand) = wake_for_filed("i-0012", "Something", Some(&primary), true, None);
    assert_eq!(own, Wake::NotNews);
    assert_eq!(errand.subject(), "issue i-0012");
    let (news, errand) = wake_for_filed("i-0012", "Something", None, true, None);
    assert_eq!(
        news,
        Wake::Send {
            prompt: errand.prompt()
        }
    );
}

#[test]
fn a_prompt_that_is_not_taken_restarts_at_once() {
    let errand = review();
    assert_eq!(
        wake(&errand, 4, Ok(())),
        Step::WaitAgain(Watch {
            errand: review(),
            turns_before: 4,
            restarts: 0
        })
    );
    assert_eq!(
        wake(&errand, 4, Err("no session".into())),
        Step::Restart {
            why: "it could not be woken (no session)".into(),
            prompt: errand.resume_prompt("it could not be woken (no session)"),
            restarts: 1,
        }
    );
    assert_eq!(
        not_taken("busy"),
        "the prompt was not taken after the restart: busy"
    );
}

/// A silent coordinator is restarted twice and then left to the user, and no
/// number of deadlines restarts it a third time.
#[test]
fn a_silent_coordinator_is_restarted_twice_and_then_left_alone() {
    let silent = facts(ChatState::Idle, 4, Some(DEADLINE));
    let mut waiting = Watch {
        errand: review(),
        turns_before: 4,
        restarts: 0,
    };
    let why = "it went idle without finishing a turn, with nothing happening in it for 10 minutes \
               after being asked about the review of i-0007";
    for expected in 1..=MAX_RESTARTS {
        match watch(waiting, Some(&silent)) {
            Step::Restart {
                why: said,
                prompt,
                restarts,
            } => {
                assert_eq!(said, why);
                assert_eq!(prompt, review().resume_prompt(why));
                assert_eq!(restarts, expected);
                waiting = restart(&review(), 4, restarts);
            }
            other => panic!("{other:?}"),
        }
    }
    assert_eq!(
        watch(waiting, Some(&silent)),
        Step::Note(format!(
            "not restarted again: {why}, after 2 restarts — the review of i-0007 needs you"
        ))
    );
}

#[test]
fn a_watch_ends_waits_or_points_at_the_card() {
    let waiting = || Watch {
        errand: review(),
        turns_before: 4,
        restarts: 1,
    };
    assert_eq!(watch(waiting(), None), Step::Done, "the chat is gone");
    assert_eq!(
        watch(waiting(), Some(&facts(ChatState::Streaming, 5, Some(0)))),
        Step::Done
    );
    assert_eq!(
        watch(waiting(), Some(&facts(ChatState::Streaming, 4, Some(DEADLINE - 1)))),
        Step::WaitAgain(waiting()),
        "waiting for a chat that works is not a failed attempt"
    );
    assert_eq!(
        watch(waiting(), Some(&facts(ChatState::AwaitingPermission, 4, None))),
        Step::Note("the review of i-0007 is waiting on the permission above".into())
    );
}
