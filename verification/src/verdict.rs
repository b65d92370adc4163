//! What is said at the end of a run.

use vstd::prelude::*;
use vstd::string::*;

use crate::answers::the_end_tells_whether_a_hang_was_seen;
use crate::run_state::{RunState, RunView};
use crate::text::{add_line, decimal, decimal_text, texts};

verus! {

/// What is said at the end of a run.
pub open spec fn verdict_texts(run: RunView) -> Seq<Seq<char>> {
    if run.hang_detected {
        seq![
            "\n🔴 TEST RESULT: Successfully reproduced hang condition!"@,
            "The issue occurs when using a client after its runtime was dropped."@,
            "This matches the production issue you're experiencing."@,
            "Leaked connections: "@ + decimal(run.leaked as nat),
            "Active connections at end: "@ + decimal(run.active as nat),
            "\nREPRODUCTION PATTERN:"@,
            "1. Task runtime creates async tasks using shared global client"@,
            "2. These tasks hold TCP connections from connection pool"@,
            "3. Task runtime is dropped without proper cleanup"@,
            "4. Global runtime tries to use the same client"@,
            "5. Hang occurs because connection resources weren't properly released"@,
            "\nTest completed"@,
        ]
    } else {
        seq![
            "\n🟢 TEST RESULT: No hang detected in this run."@,
            "The issue can be timing-dependent. It may require multiple runs"@,
            "or specific system conditions to trigger reliably."@,
            "Try running with RUST_LOG=hyper=trace,tokio=trace for more details."@,
            "\nTest completed"@,
        ]
    }
}

/// Ends a run at a time of Unix seconds: notes the time where a hang was seen, and returns what
/// to say.
pub fn conclude(run: &mut RunState, timestamp: u64) -> (lines: Vec<String>)
    ensures
        final(run)@ == (if old(run)@.hang_detected {
            RunView { reproduced_at: timestamp, ..old(run)@ }
        } else {
            old(run)@
        }),
        texts(lines@) == verdict_texts(old(run)@),
        (lines@[0]@ == "\n🔴 TEST RESULT: Successfully reproduced hang condition!"@)
            == old(run)@.hang_detected,
        final(run)@.reproduced_at == if lines@[0]@
            == "\n🔴 TEST RESULT: Successfully reproduced hang condition!"@ {
            timestamp
        } else {
            old(run)@.reproduced_at
        },
{
    let ghost before = run@;
    let mut lines: Vec<String> = Vec::new();
    if run.hang_detected() {
        run.record_reproduction(timestamp);
        let mut leaked: String = String::from_str("Leaked connections: ");
        leaked.append(decimal_text(run.leaked_connections() as u64).as_str());
        let mut active: String = String::from_str("Active connections at end: ");
        active.append(decimal_text(run.active_connections() as u64).as_str());
        add_line(
            &mut lines,
            String::from_str("\n🔴 TEST RESULT: Successfully reproduced hang condition!"),
        );
        add_line(
            &mut lines,
            String::from_str(
                "The issue occurs when using a client after its runtime was dropped.",
            ),
        );
        add_line(
            &mut lines,
            String::from_str("This matches the production issue you're experiencing."),
        );
        add_line(&mut lines, leaked);
        add_line(&mut lines, active);
        add_line(&mut lines, String::from_str("\nREPRODUCTION PATTERN:"));
        add_line(
            &mut lines,
            String::from_str("1. Task runtime creates async tasks using shared global client"),
        );
        add_line(
            &mut lines,
            String::from_str("2. These tasks hold TCP connections from connection pool"),
        );
        add_line(
            &mut lines,
            String::from_str("3. Task runtime is dropped without proper cleanup"),
        );
        add_line(
            &mut lines,
            String::from_str("4. Global runtime tries to use the same client"),
        );
        add_line(
            &mut lines,
            String::from_str(
                "5. Hang occurs because connection resources weren't properly released",
            ),
        );
    } else {
        add_line(
            &mut lines,
            String::from_str("\n🟢 TEST RESULT: No hang detected in this run."),
        );
        add_line(
            &mut lines,
            String::from_str("The issue can be timing-dependent. It may require multiple runs"),
        );
        add_line(
            &mut lines,
            String::from_str("or specific system conditions to trigger reliably."),
        );
        add_line(
            &mut lines,
            String::from_str(
                "Try running with RUST_LOG=hyper=trace,tokio=trace for more details.",
            ),
        );
    }
    add_line(&mut lines, String::from_str("\nTest completed"));
    assert(texts(lines@) =~= verdict_texts(before));
    proof {
        the_end_tells_whether_a_hang_was_seen(before);
        assert(texts(lines@)[0] == lines@[0]@);
    }
    lines
}

} // verus!
