//! Correlation of GPS logs with recording sessions: the file-format
//! selection and the service handle. Reading and writing the logs
//! themselves, and the floating-point coordinates they carry, stay with
//! the binary.

use vstd::prelude::*;
use vstd::string::StringSliceAdditionalSpecFns;

verus! {

/// A download format for correlated GPS data.
#[derive(Clone, Copy, Debug, PartialEq, Eq, Structural)]
pub enum GpsFileFormat {
    Csv,
    Json,
    Gpx,
}

/// ASCII lowercasing of one byte.
pub open spec fn spec_ascii_lower(b: u8) -> u8 {
    if 0x41 <= b <= 0x5a {
        (b + 0x20) as u8
    } else {
        b
    }
}

/// Whether a byte string names a format, letter case aside.
pub open spec fn spec_format_from_bytes(s: Seq<u8>) -> Option<GpsFileFormat> {
    let lower = Seq::new(s.len(), |i: int| spec_ascii_lower(s[i]));
    if lower == "csv".spec_bytes() {
        Some(GpsFileFormat::Csv)
    } else if lower == "json".spec_bytes() {
        Some(GpsFileFormat::Json)
    } else if lower == "gpx".spec_bytes() {
        Some(GpsFileFormat::Gpx)
    } else {
        None
    }
}

fn ascii_lower_matches(s: &[u8], pat: &[u8]) -> (r: bool)
    ensures
        r == (Seq::new(s@.len(), |i: int| spec_ascii_lower(s@[i])) == pat@),
{
    if s.len() != pat.len() {
        proof {
            assert(Seq::new(s@.len(), |i: int| spec_ascii_lower(s@[i])).len() == s@.len());
        }
        return false;
    }
    let mut i: usize = 0;
    while i < s.len()
        invariant
            i <= s@.len(),
            s@.len() == pat@.len(),
            forall|j: int| 0 <= j < i ==> spec_ascii_lower(s@[j]) == pat@[j],
        decreases s@.len() - i,
    {
        let b = s[i];
        let lower = if 0x41 <= b && b <= 0x5a {
            b + 0x20
        } else {
            b
        };
        if lower != pat[i] {
            proof {
                assert(Seq::new(s@.len(), |j: int| spec_ascii_lower(s@[j]))[i as int]
                    != pat@[i as int]);
            }
            return false;
        }
        i = i + 1;
    }
    proof {
        assert(Seq::new(s@.len(), |j: int| spec_ascii_lower(s@[j])) =~= pat@);
    }
    true
}

impl GpsFileFormat {
    /// Reads a format name, letter case aside; anything else is `None`.
    pub fn from_str(s: &str) -> (r: Option<GpsFileFormat>)
        ensures
            r == spec_format_from_bytes(s.spec_bytes()),
    {
        let b = s.as_bytes();
        if ascii_lower_matches(b, "csv".as_bytes()) {
            Some(GpsFileFormat::Csv)
        } else if ascii_lower_matches(b, "json".as_bytes()) {
            Some(GpsFileFormat::Json)
        } else if ascii_lower_matches(b, "gpx".as_bytes()) {
            Some(GpsFileFormat::Gpx)
        } else {
            None
        }
    }

    /// The MIME content type served for this format.
    pub fn content_type(&self) -> (r: &'static str)
        ensures
            self is Csv ==> r@ == "text/csv"@,
            self is Json ==> r@ == "application/json"@,
            self is Gpx ==> r@ == "application/gpx+xml"@,
    {
        match self {
            GpsFileFormat::Csv => "text/csv",
            GpsFileFormat::Json => "application/json",
            GpsFileFormat::Gpx => "application/gpx+xml",
        }
    }

    /// The file extension used for this format.
    pub fn file_extension(&self) -> (r: &'static str)
        ensures
            self is Csv ==> r@ == "csv"@,
            self is Json ==> r@ == "json"@,
            self is Gpx ==> r@ == "gpx"@,
    {
        match self {
            GpsFileFormat::Csv => "csv",
            GpsFileFormat::Json => "json",
            GpsFileFormat::Gpx => "gpx",
        }
    }
}

/// Hands out GPS data correlated with recording sessions. The directory
/// path is held here; the binary does the reading.
pub struct GpsCorrelator {
    pub gps_data_path: String,
}

impl GpsCorrelator {
    pub fn new(gps_data_path: &str) -> (r: Self)
        ensures
            r.gps_data_path@ == gps_data_path@,
    {
        GpsCorrelator { gps_data_path: gps_data_path.to_owned() }
    }
}

} // verus!
