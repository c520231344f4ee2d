use vstd::prelude::*;

verus! {

/// Readiness of the inference service, as reported by its health endpoint.
#[derive(PartialEq, Eq, Structural, Clone, Copy, Debug)]
pub enum Status {
    Ready,
    Loading,
    Error,
    Unknown,
}

/// The health endpoint's text for a ready model.
pub open spec fn ready_text() -> Seq<u8> {
    seq![0x6fu8, 0x6bu8]
}

/// The health endpoint's text while the model is still loading.
pub open spec fn loading_text() -> Seq<u8> {
    seq![0x6cu8, 0x6fu8, 0x61u8, 0x64u8, 0x69u8, 0x6eu8, 0x67u8, 0x20u8, 0x6du8, 0x6fu8, 0x64u8, 0x65u8, 0x6cu8]
}

/// The health endpoint's text for a failed model.
pub open spec fn error_text() -> Seq<u8> {
    seq![0x65u8, 0x72u8, 0x72u8, 0x6fu8, 0x72u8]
}

/// The closed mapping from a status field's text to a readiness status:
/// every text outside the three known ones means `Unknown`.
pub open spec fn status_of(s: Seq<u8>) -> Status {
    if s == ready_text() {
        Status::Ready
    } else if s == loading_text() {
        Status::Loading
    } else if s == error_text() {
        Status::Error
    } else {
        Status::Unknown
    }
}

impl Status {
    /// The text this status is reported as.
    pub open spec fn text_spec(self) -> Seq<char> {
        match self {
            Status::Ready => "ok"@,
            Status::Loading => "loading"@,
            Status::Error => "error"@,
            Status::Unknown => "unknown"@,
        }
    }

    /// A short human-readable name for the status.
    pub fn text(&self) -> (r: &'static str)
        ensures
            r@ == self.text_spec(),
    {
        match self {
            Status::Ready => "ok",
            Status::Loading => "loading",
            Status::Error => "error",
            Status::Unknown => "unknown",
        }
    }
}

/// Decode a status field's value into a readiness status.
pub fn status_of_value(v: &Vec<u8>) -> (s: Status)
    ensures
        s == status_of(v@),
{
    if v.len() == 2 && v[0] == 0x6fu8 && v[1] == 0x6bu8 {
        proof {
            assert(v@ =~= ready_text());
        }
        Status::Ready
    } else if v.len() == 13 && v[0] == 0x6cu8 && v[1] == 0x6fu8 && v[2] == 0x61u8 && v[3] == 0x64u8
        && v[4] == 0x69u8 && v[5] == 0x6eu8 && v[6] == 0x67u8 && v[7] == 0x20u8 && v[8] == 0x6du8
        && v[9] == 0x6fu8 && v[10] == 0x64u8 && v[11] == 0x65u8 && v[12] == 0x6cu8 {
        proof {
            assert(v@ =~= loading_text());
        }
        Status::Loading
    } else if v.len() == 5 && v[0] == 0x65u8 && v[1] == 0x72u8 && v[2] == 0x72u8 && v[3] == 0x6fu8
        && v[4] == 0x72u8 {
        proof {
            assert(v@ =~= error_text());
        }
        Status::Error
    } else {
        proof {
            assert(v@ != ready_text());
            assert(v@ != loading_text());
            assert(v@ != error_text());
        }
        Status::Unknown
    }
}

} // verus!
