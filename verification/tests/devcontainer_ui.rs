use taste_app::devcontainer_ui::{
    author_prompt, baseline_face, no_chat_toast, repair_prompt, touch_countdown, AskKind,
    BaselineFace, ButtonAction, ButtonLabel, DevcontainerBanner, DevcontainerStateEvent, Followup,
    Icon, Pressed, StateKind, Trouble,
};
use taste_app::environment::ConfigAuthority;

#[test]
fn the_touch_countdown_counts_down_and_then_waits() {
    assert_eq!(
        touch_countdown("Touch your security key", 0),
        "Touch your security key · about 30 s to touch"
    );
    assert_eq!(
        touch_countdown("Touch your security key", 29),
        "Touch your security key · about 1 s to touch"
    );
    assert_eq!(
        touch_countdown("Touch your security key", 30),
        "Touch your security key · still waiting"
    );
    assert_eq!(
        touch_countdown("Touch your security key", 90),
        "Touch your security key · still waiting"
    );
}

fn trouble() -> Trouble {
    Trouble {
        failed_build_log: None,
        tail: Vec::new(),
        hook_failure: None,
        in_container: false,
        passed_over: None,
        failed: None,
    }
}

fn build_prompt(reason: &str, evidence: &str) -> String {
    format!(
        "Fix this project's devcontainer setup so the environment builds.\n\n\
         WHAT HAPPENED\n\
         The IDE tried to build the environment from .devcontainer/devcontainer.json and \
         could not. It is running its own baseline environment instead (safe mode). The \
         failure, as the IDE read it:\n  {reason}\n{evidence}\n\n\
         HOW TO WORK\n\
         1. Read .devcontainer/devcontainer.json with your file tools, and any file it \
         names (a Containerfile or Dockerfile). Do not guess at their contents.\n\
         2. Find the smallest change that makes the build succeed. Common causes, in \
         order of likelihood:\n\
            - an image tag that does not exist on the registry: use a plain, published \
         tag (for example a version like \"8.3\" rather than a variant you are unsure \
         of), or build from a Containerfile instead;\n\
            - a \"features\" block: this IDE does not apply devcontainer features; \
         install those tools in a Containerfile and reference it with \
         \"build\": {{\"dockerfile\": \"Containerfile\"}} in place of \"image\";\n\
            - a mount whose source is outside the workspace, or an object-form mount: \
         bind sources must be under ${{localWorkspaceFolder}}, written in the string \
         form;\n\
            - a postCreateCommand that needs a tool the image does not have.\n\
         3. Edit files under .devcontainer/ only. That directory is writable; the rest \
         of the checkout is read-only until the environment builds.\n\
         4. Do not run podman, docker, or the build yourself. When the files are ready, \
         call the devcontainer_reload tool once. The IDE builds the environment and asks \
         the user before running any lifecycle command.\n\
         5. Then call the environment tool with include [\"log\"]. If it reports a \
         failure, read the new log lines and go back to step 2. Stop after three \
         attempts and report what you tried.\n\
         6. Finish with one short paragraph: what was wrong, what you changed, and \
         whether the environment built."
    )
}

fn lifecycle_prompt(reason: &str, evidence: &str) -> String {
    format!(
            "Fix this project's devcontainer setup so its lifecycle commands succeed.\n\n\
             WHAT HAPPENED\n\
             The IDE built and started the environment from .devcontainer/devcontainer.json. \
             Then one of its lifecycle commands failed, and the commands after it were \
             skipped. The container is running and the whole checkout is writable. The \
             failure, as the IDE read it:\n  {reason}\n{evidence}\n\n\
             HOW TO WORK\n\
             1. Read .devcontainer/devcontainer.json with your file tools, and any file it \
             names (a Containerfile or Dockerfile). Do not guess at their contents.\n\
             2. Find the smallest change that makes the command succeed. Common causes, in \
             order of likelihood:\n\
                - the command needs a tool the image does not have (composer, npm, a \
             language extension): install it in the Containerfile;\n\
                - a \"features\" block was expected to provide it: this IDE does not apply \
             devcontainer features, so install those tools in the Containerfile instead;\n\
                - the command runs in the wrong directory, or before a file it needs \
             exists: give it the path, or move it to a later lifecycle step;\n\
                - the command needs the network or credentials the container does not \
             have.\n\
             You may run the failed command yourself with the ide_exec tool to see its \
             full output; it runs inside the container.\n\
             3. Edit the files under .devcontainer/ that the fix needs.\n\
             4. Do not run podman, docker, or the build yourself. When the files are ready, \
             call the devcontainer_reload tool once. The IDE rebuilds the environment and \
             asks the user before running any lifecycle command.\n\
             5. Then call the environment tool. If it reports lifecycle_failed, call it \
             again with include [\"log\"], read the new failure, and go back to step 2. \
             Stop after three attempts and report what you tried.\n\
             6. Finish with one short paragraph: what was wrong, what you changed, and \
             whether the commands ran."
    )
}

/// The failed build's own log outranks the live tail, and each says what is
/// attached.
#[test]
fn the_repair_prompt_carries_the_evidence_it_has() {
    let empty = "The build log is empty; call the environment tool with include [\"log\"] \
                 for the latest lines before changing anything.";
    assert_eq!(
        repair_prompt(&trouble()),
        (build_prompt("the environment did not build", empty), None)
    );

    let mut tailing = trouble();
    tailing.tail = vec!["one".into(), "two".into()];
    tailing.failed = Some("no image".into());
    assert_eq!(
        repair_prompt(&tailing),
        (
            build_prompt(
                "no image",
                "The last lines of the environment build log are attached as \
                 environment-build.log; read them before changing anything."
            ),
            Some("one\ntwo".into())
        )
    );

    let mut failed = trouble();
    failed.tail = vec!["the baseline's".into()];
    failed.failed_build_log = Some(vec!["boom".into()]);
    failed.passed_over = Some("image not found".into());
    failed.failed = Some("no image".into());
    let kept = "The failed build's log, as it stood when it failed, is attached as \
                environment-build.log; podman's error is at its end. Read it before changing \
                anything.";
    assert_eq!(
        repair_prompt(&failed),
        (build_prompt("image not found", kept), Some("boom".into()))
    );

    failed.failed_build_log = Some(Vec::new());
    assert_eq!(
        repair_prompt(&failed),
        (build_prompt("image not found", empty), None)
    );
}

/// A lifecycle failure has its own prompt, and only inside the project's own
/// container.
#[test]
fn a_lifecycle_failure_is_another_repair() {
    let mut hooked = trouble();
    hooked.tail = vec!["npm: not found".into()];
    hooked.hook_failure = Some("postCreateCommand exited 127".into());
    let tail = "The last lines of the environment build log are attached as \
                environment-build.log; read them before changing anything.";
    assert_eq!(
        repair_prompt(&hooked).0,
        build_prompt("the environment did not build", tail)
    );
    hooked.in_container = true;
    assert_eq!(
        repair_prompt(&hooked),
        (
            lifecycle_prompt("postCreateCommand exited 127", tail),
            Some("npm: not found".into())
        )
    );
}

#[test]
fn the_author_prompt_is_set_up_and_not_repair() {
    assert_eq!(
        author_prompt(),
        "Write this project's devcontainer definition.\n\n\
     WHAT IS TRUE\n\
     The project has no .devcontainer/ yet. The IDE is running its own baseline environment \
     (safe mode) so that one can be written: .devcontainer/ is writable, and the rest of the \
     checkout is read-only until the project's own environment builds.\n\n\
     HOW TO WORK\n\
     1. Learn what the project needs with your file tools: its README, build files, \
     lockfiles, and CI configuration name the languages, tools, and versions.\n\
     2. Write .devcontainer/Containerfile that installs them, and \
     .devcontainer/devcontainer.json that builds it with \
     \"build\": {\"dockerfile\": \"Containerfile\"}. Keep it usable by VS Code and \
     Codespaces. This IDE does not apply devcontainer features: install tools in the \
     Containerfile instead. If the checkout has a Taskfile.yml (taskfile.dev), install Task \
     in the Containerfile too (Fedora's package is go-task; either binary name works): the \
     IDE lists and runs the project's tasks through it.\n\
     If the project runs podman or docker itself (its build, tests, or tasks call it): \
     install podman and fuse-overlayfs; set \"privileged\": true in devcontainer.json (the \
     IDE grants exactly what nested podman needs for it, and VS Code reads it too); after the \
     package install, run `setcap cap_setuid+ep /usr/bin/newuidmap && setcap cap_setgid+ep \
     /usr/bin/newgidmap`, because the image build drops their file capabilities; and give \
     the image's user subordinate IDs inside the container's range, for a user with uid \
     1000: `echo USER:1:999 > /etc/subuid; echo USER:1001:64535 >> /etc/subuid`, and the \
     same for /etc/subgid. useradd's default range does not exist in the container.\n\
     3. Do not run podman, docker, or the build yourself. When the files are ready, call the \
     devcontainer_reload tool once.\n\
     4. Then call the environment tool with include [\"log\"]. If it reports a failure, read \
     the log, fix the files, and reload again. After a start, the IDE checks the container for \
     Task and for nested podman; a failure names what is missing and the change that fixes it. Stop after three attempts and report what you \
     tried.\n\
     5. Finish with one short paragraph: what the environment provides, and why."
    );
}

fn running() -> DevcontainerStateEvent {
    DevcontainerStateEvent::Running
}

#[test]
fn each_state_has_its_face() {
    let mut banner = DevcontainerBanner::new();
    assert!(!banner.revealed);
    assert!(!banner.on_state(
        &DevcontainerStateEvent::ConfigDetected,
        ConfigAuthority::Project
    ));
    assert!(banner.revealed);
    assert_eq!(
        banner.title,
        "Safe mode — devcontainer not running; only its setup is editable"
    );
    assert_eq!(banner.button, Some(ButtonLabel::Start));
    assert_eq!(banner.action, ButtonAction::Reload);

    for (stage, title) in [
        (DevcontainerStateEvent::Building, "Devcontainer building…"),
        (DevcontainerStateEvent::Starting, "Devcontainer starting…"),
        (DevcontainerStateEvent::Preparing, "Devcontainer preparing…"),
    ] {
        banner.on_state(&stage, ConfigAuthority::Project);
        assert!(banner.revealed && banner.progress, "{stage:?}");
        assert_eq!(banner.title, title);
        assert_eq!(banner.button, Some(ButtonLabel::ViewLog));
        assert_eq!(banner.action, ButtonAction::ViewLog);
        assert_eq!(banner.secondary, None);
    }
    banner.on_state(&running(), ConfigAuthority::Project);
    assert!(!banner.revealed && !banner.progress, "running is running");

    banner.on_state(&DevcontainerStateEvent::Stopped, ConfigAuthority::Project);
    assert_eq!(
        (banner.icon, banner.title.as_str()),
        (Icon::Stop, "Safe mode — devcontainer stopped")
    );
    assert!(banner.revealed);

    banner.on_state(&DevcontainerStateEvent::NoConfig, ConfigAuthority::Project);
    assert_eq!(banner.title, "Safe mode — no devcontainer");
    assert_eq!(banner.button, Some(ButtonLabel::Create));
    assert_eq!(banner.secondary, Some(ButtonLabel::PromptAgent));
    assert_eq!(banner.secondary_action, ButtonAction::AuthorAgent);
    assert!(banner.agent_leads, "the agent writing one is the blue button");

    let failed = DevcontainerStateEvent::Failed {
        message: "no image".into(),
    };
    banner.on_state(&failed, ConfigAuthority::Project);
    assert_eq!(banner.title, "Safe mode — failed environment build");
    assert_eq!(banner.secondary_action, ButtonAction::PromptAgent);
    assert!(!banner.agent_leads);
    assert_eq!(failed.kind(), StateKind::Failed);
    assert_eq!(
        failed.log_line(),
        Some("environment failed: no image".to_string())
    );
    assert_eq!(running().log_line(), None);

    assert!(!banner.on_state(&running(), ConfigAuthority::Project));
    assert!(!banner.revealed, "running is running");
    assert!(
        banner.on_state(&running(), ConfigAuthority::Baseline),
        "safe mode asks what the config comes to"
    );
}

#[test]
fn a_running_baseline_says_what_the_config_comes_to() {
    let (project, baseline) = (ConfigAuthority::Project, ConfigAuthority::Baseline);
    assert_eq!(baseline_face(project, Some("why"), true), BaselineFace::Ready);
    assert_eq!(
        baseline_face(baseline, Some("why"), true),
        BaselineFace::BuildFailed
    );
    assert_eq!(
        baseline_face(baseline, Some("why"), false),
        BaselineFace::ConfigRefused
    );
    assert_eq!(baseline_face(baseline, None, true), BaselineFace::NoConfig);

    let mut banner = DevcontainerBanner::new();
    banner.on_resolved(false, project, None, false);
    assert!(!banner.revealed, "the moment has passed");
    banner.on_resolved(true, project, None, false);
    assert_eq!(
        banner.title,
        "Safe mode — devcontainer.json is ready; rebuild to run the project's own environment"
    );
    assert_eq!(banner.button, Some(ButtonLabel::Rebuild));
    assert!(banner.on_pending_changes(true, baseline));
    assert!(banner.revealed);
    assert!(!banner.on_pending_changes(false, project));
    assert!(banner.revealed, "safe mode keeps its banner");
    assert!(!banner.on_pending_changes(true, project));
    assert!(!banner.revealed);
    banner.on_resolved(true, baseline, Some("bad json"), false);
    assert_eq!(
        (banner.icon, banner.title.as_str()),
        (Icon::Warning, "Safe mode — invalid devcontainer setup")
    );
    assert_eq!(Icon::Warning.name(), "dialog-warning-symbolic");
    assert_eq!(ButtonLabel::ViewLog.words(), "View Log");
}

/// A question borrows the strip, and the environment's face comes back.
#[test]
fn a_question_borrows_the_strip() {
    let project = ConfigAuthority::Project;
    let mut banner = DevcontainerBanner::new();
    banner.on_state(&DevcontainerStateEvent::NoConfig, project);
    assert!(banner.ask(
        7,
        "  Enter PIN for authenticator: : \nmore",
        AskKind::Secret
    ));
    assert_eq!(banner.title, "Enter PIN for authenticator:");
    assert!(banner.secret && !banner.text);
    assert_eq!(banner.cancel, Some(ButtonLabel::Cancel));
    assert_eq!(banner.secondary, None);
    assert!(
        !banner.ask(8, "Another?", AskKind::Confirm),
        "one question at a time"
    );
    assert!(!banner.ask_done(8, project), "not on the strip");
    assert_eq!(banner.question, Some((7, AskKind::Secret)));

    banner.on_state(&DevcontainerStateEvent::Stopped, project);
    assert_eq!(
        banner.title, "Enter PIN for authenticator:",
        "the environment's face waits"
    );
    assert_eq!(
        banner.answer_question("1234", project),
        Followup {
            answer: Some((7, Some("1234".into()))),
            resolve: false
        }
    );
    assert_eq!(banner.title, "Safe mode — devcontainer stopped");
    assert!(!banner.secret && banner.cancel.is_none() && banner.question.is_none());
}

#[test]
fn no_is_an_answer_only_to_a_yes_or_no_question() {
    let baseline = ConfigAuthority::Baseline;
    let mut banner = DevcontainerBanner::new();
    banner.ask(1, "Trust this host?", AskKind::Confirm);
    assert_eq!(banner.button, Some(ButtonLabel::Yes));
    assert_eq!(
        banner.cancel_question(baseline),
        Followup {
            answer: Some((1, Some("no".into()))),
            resolve: false
        }
    );
    assert!(!banner.revealed, "nothing was behind it");

    banner.ask(2, "Trust this host?", AskKind::Confirm);
    assert_eq!(
        banner.act(ButtonAction::Answer, "", false, baseline),
        Pressed::Answered(Followup {
            answer: Some((2, Some("yes".into()))),
            resolve: false
        })
    );

    banner.on_state(&running(), baseline);
    banner.ask(3, "Username:", AskKind::Text);
    assert_eq!(banner.title, "Username");
    assert_eq!(
        banner.cancel_question(baseline),
        Followup {
            answer: Some((3, None)),
            resolve: true
        }
    );
}

#[test]
fn a_touch_notice_counts_down_until_it_is_over() {
    let project = ConfigAuthority::Project;
    let mut banner = DevcontainerBanner::new();
    banner.ask(4, "Touch your security key", AskKind::Notice);
    assert!(banner.attention && banner.icon == Icon::Fingerprint);
    assert_eq!(banner.button, None);
    assert_eq!(banner.title, "Touch your security key · about 30 s to touch");
    assert!(banner.tick_notice(4, "Touch your security key", 12));
    assert_eq!(banner.title, "Touch your security key · about 18 s to touch");
    assert!(!banner.ask_done(4, project));
    assert!(!banner.tick_notice(4, "Touch your security key", 13));
    assert_eq!(
        banner.answer_question("", project),
        Followup {
            answer: None,
            resolve: false
        }
    );
}

#[test]
fn a_button_does_its_work() {
    let project = ConfigAuthority::Project;
    let mut banner = DevcontainerBanner::new();
    assert_eq!(
        banner.act(ButtonAction::PromptAgent, "", false, project),
        Pressed::NoChat
    );
    assert_eq!(no_chat_toast(), "No chat to prompt yet");
    assert_eq!(
        banner.act(ButtonAction::PromptAgent, "", true, project),
        Pressed::SendRepair
    );
    assert_eq!(
        banner.act(ButtonAction::AuthorAgent, "", true, project),
        Pressed::SendAuthor
    );
    assert_eq!(
        banner.act(ButtonAction::ViewLog, "", true, project),
        Pressed::ShowLog
    );
    assert_eq!(
        banner.act(ButtonAction::CreateConfig, "", true, project),
        Pressed::CreateConfig
    );
    banner.on_state(&DevcontainerStateEvent::Stopped, project);
    assert_eq!(
        banner.act(ButtonAction::Reload, "", true, project),
        Pressed::Reload
    );
    assert_eq!(banner.title, "Devcontainer starting…");
    assert!(banner.revealed && banner.button.is_none());
}

#[test]
fn a_pose_holds_against_the_states_that_follow() {
    let mut banner = DevcontainerBanner::new();
    banner.pose_for_probe("passed");
    assert_eq!(banner.title, "Safe mode — invalid devcontainer setup");
    banner.on_state(&running(), ConfigAuthority::Project);
    assert!(banner.revealed);
    let mut asked = DevcontainerBanner::new();
    asked.pose_for_probe("ask");
    assert_eq!(asked.question, Some((u64::MAX, AskKind::Secret)));
    assert_eq!(asked.title, "Enter PIN for authenticator");
    let mut touched = DevcontainerBanner::new();
    touched.pose_for_probe("touch");
    assert_eq!(
        touched.title,
        "Touch your security key — Pull is waiting on it · about 30 s to touch"
    );
    let mut other = DevcontainerBanner::new();
    other.pose_for_probe("anything");
    assert_eq!(other.title, "Safe mode — no devcontainer");
}
