use taste_app::quota::{
    draw_quota, quota_tooltip, time_left, Exhaustion, GaugeFace, Headline, QuotaReading,
    QuotaSnapshot, QuotaSpans, QuotaWords, RateReading, Refusal, Share, Standing,
    WindowReading,
};

fn window(used_percent: u64, resets: Option<&str>) -> WindowReading {
    WindowReading {
        used_percent,
        resets: resets.map(String::from),
    }
}

const POOL: &str = "One pool: every environment here, and your own Helper use.";

/// Nothing observed yet is not the same as nothing spent.
#[test]
fn nothing_observed_says_so_and_draws_no_bar() {
    let reading = QuotaReading::default();
    assert_eq!(
        quota_tooltip(&reading, "Helper"),
        format!("Not yet observed.\n{POOL}")
    );
    assert_eq!(draw_quota(&reading, false), None);
}

#[test]
fn the_plans_windows_are_read_out() {
    let mut reading = QuotaReading::default();
    reading.session = Some(window(42, Some("in 2 h")));
    reading.weekly = Some(window(7, None));
    reading.headline = Some(RateReading {
        label: "5h".into(),
        used_percent: 42,
        resets: None,
    });
    reading.age = Some("3 minutes ago".into());
    assert_eq!(
        quota_tooltip(&reading, "Helper"),
        format!(
            "Session window 42% used, resets in 2 h\nWeekly window 7% used\nRead off the last \
             agent turn, 3 minutes ago.\n{POOL}"
        )
    );
    assert_eq!(
        draw_quota(&reading, true),
        Some(GaugeFace {
            used_percent: 42,
            spent: false,
            stale: true
        })
    );
}

#[test]
fn a_refusal_leads_and_a_rate_limit_says_what_it_is() {
    let mut refused = QuotaReading::default();
    refused.exhausted = Some(Exhaustion {
        reopens: Some("at 15:00".into()),
        message: Some("usage limit reached".into()),
    });
    assert_eq!(
        quota_tooltip(&refused, "Helper"),
        format!(
            "Out of quota — reopens at 15:00\nusage limit reached\nNot yet observed.\n{POOL}"
        )
    );
    refused.headline = Some(RateReading {
        label: "tokens".into(),
        used_percent: 100,
        resets: None,
    });
    assert_eq!(
        draw_quota(&refused, false),
        Some(GaugeFace {
            used_percent: 100,
            spent: true,
            stale: false
        })
    );

    let mut rated = QuotaReading::default();
    rated.headline = Some(RateReading {
        label: "tokens".into(),
        used_percent: 81,
        resets: Some("in 40 s".into()),
    });
    assert_eq!(
        quota_tooltip(&rated, "Helper"),
        format!(
            "API rate limit (tokens) 81% used, resets in 40 s\nThe plan's own windows were not \
             reported.\nNot yet observed.\n{POOL}"
        )
    );
}

/// What moves with the clock is made of the observation when it is drawn.
#[test]
fn an_observation_is_put_into_words_when_it_is_drawn() {
    assert_eq!(time_left(Some(9), 4), Some(5));
    assert_eq!(time_left(Some(4), 9), None, "it is past");
    assert_eq!(time_left(None, 4), None);
    let mut seen = QuotaSnapshot::default();
    seen.observed_at = Some(100);
    seen.session.utilization = Some(Share { bits: 1, percent: 42 });
    seen.session.window.reset = Some(400);
    seen.weekly.window.reset = Some(200);
    seen.refusal = Some(Refusal {
        until: Some(350),
        message: Some("come back".into()),
    });
    let standing = Standing {
        refusal: seen.refusal.clone(),
        headline: Some(Headline {
            label: "5h".into(),
            used: Share { bits: 1, percent: 42 },
            resets_in: Some(7),
        }),
    };
    assert_eq!(
        seen.spans(&standing, 300),
        QuotaSpans {
            reopens: Some(50),
            session: Some(100),
            weekly: None,
            headline: Some(7),
            age: Some(200),
        }
    );
    let words = || QuotaWords {
        reopens: Some("soon".into()),
        session: Some("in 2 h".into()),
        weekly: Some("never shown".into()),
        headline: Some("at once".into()),
        age: Some("just now".into()),
    };
    let reading = seen.reading(standing, words());
    assert_eq!(
        reading.exhausted,
        Some(Exhaustion {
            reopens: Some("soon".into()),
            message: Some("come back".into()),
        })
    );
    assert_eq!(reading.session, Some(window(42, Some("in 2 h"))));
    assert_eq!(reading.weekly, None, "no share of it was reported");
    assert_eq!(
        reading.headline,
        Some(RateReading {
            label: "5h".into(),
            used_percent: 42,
            resets: Some("at once".into()),
        })
    );
    assert_eq!(reading.age.as_deref(), Some("just now"));

    let over = Standing {
        refusal: None,
        headline: None,
    };
    assert_eq!(seen.spans(&over, 400).reopens, None);
    let later = seen.reading(over, words());
    assert_eq!(later.exhausted, None, "the refusal was observed and is over");
    assert_eq!(later.headline, None);
    assert_eq!(draw_quota(&later, false), None);
}
