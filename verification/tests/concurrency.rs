use std::sync::Arc;

use kprs_web_api::ledger::{CastOutcome, Ledger};
use kprs_web_api::model::{Campus, Candidate, Voter};
use tokio::runtime::Builder;
use tokio::sync::RwLock;

fn voter(name: String) -> Voter {
    Voter { token: "t".to_string(), name, class: "X".to_string(), campus: Campus::MM }
}

/// One cast as the service runs it: validation, store and commit under the
/// ledger's write lock. The store always takes the vote.
async fn cast(ledger: Arc<RwLock<Ledger>>, candidates: Arc<Vec<Candidate>>, name: String) -> CastOutcome {
    let voter = voter(name);
    let mut ledger = ledger.write().await;
    match ledger.begin_cast(&candidates, &voter, "Rina") {
        Ok(pending) => {
            tokio::task::yield_now().await;
            ledger.finish_cast(pending, true)
        }
        Err(outcome) => outcome,
    }
}

#[test]
fn simultaneous_casts_of_one_voter_give_one_success() {
    let runtime = Builder::new_multi_thread().worker_threads(4).build().unwrap();
    let candidates = Arc::new(vec![Candidate { name: "Rina".to_string(), campus: Campus::MM }]);
    let ledger = Arc::new(RwLock::new(Ledger::new()));
    let outcomes: Vec<CastOutcome> = runtime.block_on(async {
        let mut callers = Vec::new();
        for _ in 0..32 {
            callers.push(tokio::spawn(cast(ledger.clone(), candidates.clone(), "Ani".to_string())));
        }
        let mut outcomes = Vec::new();
        for caller in callers {
            outcomes.push(caller.await.unwrap());
        }
        outcomes
    });
    let accepted = outcomes.iter().filter(|outcome| **outcome == CastOutcome::Accepted).count();
    let conflicts = outcomes.iter().filter(|outcome| **outcome == CastOutcome::Conflict).count();
    assert_eq!(accepted, 1);
    assert_eq!(conflicts, 31);
    assert_eq!(runtime.block_on(ledger.read()).tally(Campus::MM, "Rina"), 1);
}

#[test]
fn simultaneous_casts_of_different_voters_all_succeed() {
    let runtime = Builder::new_multi_thread().worker_threads(4).build().unwrap();
    let candidates = Arc::new(vec![Candidate { name: "Rina".to_string(), campus: Campus::MM }]);
    let ledger = Arc::new(RwLock::new(Ledger::new()));
    let outcomes: Vec<CastOutcome> = runtime.block_on(async {
        let mut callers = Vec::new();
        for i in 0..32 {
            callers.push(tokio::spawn(cast(
                ledger.clone(),
                candidates.clone(),
                format!("voter-{}", i),
            )));
        }
        let mut outcomes = Vec::new();
        for caller in callers {
            outcomes.push(caller.await.unwrap());
        }
        outcomes
    });
    assert!(outcomes.iter().all(|outcome| *outcome == CastOutcome::Accepted));
    assert_eq!(runtime.block_on(ledger.read()).tally(Campus::MM, "Rina"), 32);
}
