//! What the display shows for a build snapshot, and the message sent when it ends.
use vstd::prelude::*;
use crate::teamcity::Build;
use crate::text::range_equals;

verus! {

#[derive(Debug, Clone, Copy, PartialEq, Eq, Structural)]
pub enum Color {
    Green,
    Red,
    Gray,
}

pub open spec fn color_spec(status: Seq<char>) -> Color {
    if status == "SUCCESS"@ {
        Color::Green
    } else if status == "FAILURE"@ {
        Color::Red
    } else {
        Color::Gray
    }
}

fn text_equals(s: &str, t: &str) -> (r: bool)
    ensures
        r == (s@ == t@),
{
    let n = s.unicode_len();
    assert(s@.subrange(0, n as int) =~= s@);
    range_equals(s, 0, n, t)
}

/// The display color for a build status: green for `SUCCESS`, red for
/// `FAILURE`, gray for any other status.
pub fn color_of_status(status: &str) -> (r: Color)
    ensures
        r == color_spec(status@),
        r == Color::Green <==> status@ == "SUCCESS"@,
        r == Color::Red <==> status@ == "FAILURE"@,
        r == Color::Gray <==> (status@ != "SUCCESS"@ && status@ != "FAILURE"@),
{
    proof {
        reveal_strlit("SUCCESS");
        reveal_strlit("FAILURE");
        assert("SUCCESS"@[0] != "FAILURE"@[0]);
    }
    if text_equals(status, "SUCCESS") {
        Color::Green
    } else if text_equals(status, "FAILURE") {
        Color::Red
    } else {
        Color::Gray
    }
}

/// What the progress display shows for one snapshot.
pub struct Descriptor {
    pub percentage: i64,
    pub label: String,
    pub color: Color,
}

pub open spec fn percentage_spec(b: &Build) -> i64 {
    match b.percentage_complete {
        Some(p) => p,
        None => 100,
    }
}

pub open spec fn label_spec(b: &Build) -> Seq<char> {
    match b.running_info {
        Some(info) => info.current_stage_text@,
        None => "build is "@ + b.status@ + " ("@ + b.state@ + ")"@,
    }
}

/// The display descriptor of a snapshot: its percentage (100 when unknown),
/// the current stage text or a summary of status and state, and the status color.
pub fn descriptor_of(build: &Build) -> (r: Descriptor)
    ensures
        r.percentage == percentage_spec(build),
        r.label@ == label_spec(build),
        r.color == color_spec(build.status@),
{
    let percentage = match build.percentage_complete {
        Some(p) => p,
        None => 100,
    };
    let label = match &build.running_info {
        Some(info) => String::from_str(info.current_stage_text.as_str()),
        None => String::from_str("build is ").concat(build.status.as_str()).concat(" (").concat(
            build.state.as_str(),
        ).concat(")"),
    };
    Descriptor { percentage, label, color: color_of_status(build.status.as_str()) }
}

/// The message sent once a build has finished.
#[derive(Debug, Clone, Copy, PartialEq, Eq, Structural)]
pub enum Notice {
    Success,
    Failure,
    Finished,
}

impl Notice {
    pub open spec fn summary_spec(&self) -> Seq<char> {
        match self {
            Notice::Success => "Build finished successfully :)"@,
            Notice::Failure => "Build failed :("@,
            Notice::Finished => "Build finished?"@,
        }
    }

    /// The notification's summary line.
    pub fn summary(&self) -> (r: String)
        ensures
            r@ == self.summary_spec(),
    {
        match self {
            Notice::Success => String::from_str("Build finished successfully :)"),
            Notice::Failure => String::from_str("Build failed :("),
            Notice::Finished => String::from_str("Build finished?"),
        }
    }
}

pub open spec fn notice_spec(b: &Build) -> Option<Notice> {
    if b.is_finished_spec() {
        Some(
            match color_spec(b.status@) {
                Color::Green => Notice::Success,
                Color::Red => Notice::Failure,
                Color::Gray => Notice::Finished,
            },
        )
    } else {
        None
    }
}

/// The notification owed for a snapshot: one only when it reports the
/// terminal state, chosen by its status.
pub fn notice_of(build: &Build) -> (r: Option<Notice>)
    ensures
        r == notice_spec(build),
{
    if !build.is_finished() {
        return None;
    }
    Some(
        match color_of_status(build.status.as_str()) {
            Color::Green => Notice::Success,
            Color::Red => Notice::Failure,
            Color::Gray => Notice::Finished,
        },
    )
}

} // verus!
