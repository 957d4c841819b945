//! The radar products published on the listing server, each with the
//! upper-case code under which it is listed.

use vstd::prelude::*;
use crate::text::same_text;

verus! {

#[derive(Copy, Clone, Debug, PartialEq, Eq, Structural)]
pub enum RadarType {
    BrefRaw,
    BvelRaw,
    Bdhc,
    Bdsa,
    Bdzd,
    Beet,
    Bohp,
    Bref,
    Bsrm,
    Bsta,
    Bstp,
    Bvel,
    Cref,
    Hvil,
}

/// The canonical code of a product.
pub open spec fn radar_name(t: RadarType) -> Seq<char> {
    match t {
        RadarType::BrefRaw => "BREF_RAW"@,
        RadarType::BvelRaw => "BVEL_RAW"@,
        RadarType::Bdhc => "BDHC"@,
        RadarType::Bdsa => "BDSA"@,
        RadarType::Bdzd => "BDZD"@,
        RadarType::Beet => "BEET"@,
        RadarType::Bohp => "BOHP"@,
        RadarType::Bref => "BREF"@,
        RadarType::Bsrm => "BSRM"@,
        RadarType::Bsta => "BSTA"@,
        RadarType::Bstp => "BSTP"@,
        RadarType::Bvel => "BVEL"@,
        RadarType::Cref => "CREF"@,
        RadarType::Hvil => "HVIL"@,
    }
}

/// The product whose canonical code is `s`, if any.
pub open spec fn radar_of_name(s: Seq<char>) -> Option<RadarType> {
    if s == "BREF_RAW"@ {
        Some(RadarType::BrefRaw)
    } else     if s == "BVEL_RAW"@ {
        Some(RadarType::BvelRaw)
    } else     if s == "BDHC"@ {
        Some(RadarType::Bdhc)
    } else     if s == "BDSA"@ {
        Some(RadarType::Bdsa)
    } else     if s == "BDZD"@ {
        Some(RadarType::Bdzd)
    } else     if s == "BEET"@ {
        Some(RadarType::Beet)
    } else     if s == "BOHP"@ {
        Some(RadarType::Bohp)
    } else     if s == "BREF"@ {
        Some(RadarType::Bref)
    } else     if s == "BSRM"@ {
        Some(RadarType::Bsrm)
    } else     if s == "BSTA"@ {
        Some(RadarType::Bsta)
    } else     if s == "BSTP"@ {
        Some(RadarType::Bstp)
    } else     if s == "BVEL"@ {
        Some(RadarType::Bvel)
    } else     if s == "CREF"@ {
        Some(RadarType::Cref)
    } else     if s == "HVIL"@ {
        Some(RadarType::Hvil)
    } else {
        None
    }
}

/// Every product, in declaration order.
pub open spec fn all_radar_types() -> Seq<RadarType> {
    seq![RadarType::BrefRaw, RadarType::BvelRaw, RadarType::Bdhc, RadarType::Bdsa, RadarType::Bdzd, RadarType::Beet, RadarType::Bohp, RadarType::Bref, RadarType::Bsrm, RadarType::Bsta, RadarType::Bstp, RadarType::Bvel, RadarType::Cref, RadarType::Hvil]
}

/// A code that names no radar product.
#[derive(Clone, Debug, PartialEq, Eq)]
pub struct UnknownRadarType {
    pub value: String,
}

impl RadarType {
    /// The canonical code, e.g. `BREF_RAW`.
    pub fn as_str(&self) -> (r: &'static str)
        ensures
            r@ == radar_name(*self),
    {
        match self {
            RadarType::BrefRaw => "BREF_RAW",
            RadarType::BvelRaw => "BVEL_RAW",
            RadarType::Bdhc => "BDHC",
            RadarType::Bdsa => "BDSA",
            RadarType::Bdzd => "BDZD",
            RadarType::Beet => "BEET",
            RadarType::Bohp => "BOHP",
            RadarType::Bref => "BREF",
            RadarType::Bsrm => "BSRM",
            RadarType::Bsta => "BSTA",
            RadarType::Bstp => "BSTP",
            RadarType::Bvel => "BVEL",
            RadarType::Cref => "CREF",
            RadarType::Hvil => "HVIL",
        }
    }

    /// The canonical code as an owned string.
    pub fn to_string(&self) -> (r: String)
        ensures
            r@ == radar_name(*self),
    {
        self.as_str().to_owned()
    }

    /// Decodes a canonical code; any other text is rejected and carried in the error.
    pub fn from_name(s: &str) -> (r: Result<RadarType, UnknownRadarType>)
        ensures
            radar_of_name(s@) matches Some(t) ==> r == Ok::<RadarType, UnknownRadarType>(t),
            radar_of_name(s@) is None ==> r is Err && r->Err_0.value@ == s@,
    {
        if same_text(s, "BREF_RAW") {
            return Ok(RadarType::BrefRaw);
        }
        if same_text(s, "BVEL_RAW") {
            return Ok(RadarType::BvelRaw);
        }
        if same_text(s, "BDHC") {
            return Ok(RadarType::Bdhc);
        }
        if same_text(s, "BDSA") {
            return Ok(RadarType::Bdsa);
        }
        if same_text(s, "BDZD") {
            return Ok(RadarType::Bdzd);
        }
        if same_text(s, "BEET") {
            return Ok(RadarType::Beet);
        }
        if same_text(s, "BOHP") {
            return Ok(RadarType::Bohp);
        }
        if same_text(s, "BREF") {
            return Ok(RadarType::Bref);
        }
        if same_text(s, "BSRM") {
            return Ok(RadarType::Bsrm);
        }
        if same_text(s, "BSTA") {
            return Ok(RadarType::Bsta);
        }
        if same_text(s, "BSTP") {
            return Ok(RadarType::Bstp);
        }
        if same_text(s, "BVEL") {
            return Ok(RadarType::Bvel);
        }
        if same_text(s, "CREF") {
            return Ok(RadarType::Cref);
        }
        if same_text(s, "HVIL") {
            return Ok(RadarType::Hvil);
        }
        Err(UnknownRadarType { value: s.to_owned() })
    }

    /// Every product, in declaration order.
    pub fn values() -> (r: Vec<RadarType>)
        ensures
            r@ == all_radar_types(),
    {
        let r = vec![RadarType::BrefRaw, RadarType::BvelRaw, RadarType::Bdhc, RadarType::Bdsa, RadarType::Bdzd, RadarType::Beet, RadarType::Bohp, RadarType::Bref, RadarType::Bsrm, RadarType::Bsta, RadarType::Bstp, RadarType::Bvel, RadarType::Cref, RadarType::Hvil];
        assert(r@ =~= all_radar_types());
        r
    }
}

/// Decoding the canonical code of a product gives that product back.
pub proof fn lemma_radar_name_round_trip(t: RadarType)
    ensures
        radar_of_name(radar_name(t)) == Some(t),
{
    reveal_strlit("BREF_RAW");
    reveal_strlit("BVEL_RAW");
    reveal_strlit("BDHC");
    reveal_strlit("BDSA");
    reveal_strlit("BDZD");
    reveal_strlit("BEET");
    reveal_strlit("BOHP");
    reveal_strlit("BREF");
    reveal_strlit("BSRM");
    reveal_strlit("BSTA");
    reveal_strlit("BSTP");
    reveal_strlit("BVEL");
    reveal_strlit("CREF");
    reveal_strlit("HVIL");
    match t {
        RadarType::BrefRaw => {
        },
        RadarType::BvelRaw => {
            assert("BVEL_RAW"@[1] != "BREF_RAW"@[1]);
        },
        RadarType::Bdhc => {
            assert("BDHC"@.len() != "BREF_RAW"@.len());
            assert("BDHC"@.len() != "BVEL_RAW"@.len());
        },
        RadarType::Bdsa => {
            assert("BDSA"@.len() != "BREF_RAW"@.len());
            assert("BDSA"@.len() != "BVEL_RAW"@.len());
            assert("BDSA"@[2] != "BDHC"@[2]);
        },
        RadarType::Bdzd => {
            assert("BDZD"@.len() != "BREF_RAW"@.len());
            assert("BDZD"@.len() != "BVEL_RAW"@.len());
            assert("BDZD"@[2] != "BDHC"@[2]);
            assert("BDZD"@[2] != "BDSA"@[2]);
        },
        RadarType::Beet => {
            assert("BEET"@.len() != "BREF_RAW"@.len());
            assert("BEET"@.len() != "BVEL_RAW"@.len());
            assert("BEET"@[1] != "BDHC"@[1]);
            assert("BEET"@[1] != "BDSA"@[1]);
            assert("BEET"@[1] != "BDZD"@[1]);
        },
        RadarType::Bohp => {
            assert("BOHP"@.len() != "BREF_RAW"@.len());
            assert("BOHP"@.len() != "BVEL_RAW"@.len());
            assert("BOHP"@[1] != "BDHC"@[1]);
            assert("BOHP"@[1] != "BDSA"@[1]);
            assert("BOHP"@[1] != "BDZD"@[1]);
            assert("BOHP"@[1] != "BEET"@[1]);
        },
        RadarType::Bref => {
            assert("BREF"@.len() != "BREF_RAW"@.len());
            assert("BREF"@.len() != "BVEL_RAW"@.len());
            assert("BREF"@[1] != "BDHC"@[1]);
            assert("BREF"@[1] != "BDSA"@[1]);
            assert("BREF"@[1] != "BDZD"@[1]);
            assert("BREF"@[1] != "BEET"@[1]);
            assert("BREF"@[1] != "BOHP"@[1]);
        },
        RadarType::Bsrm => {
            assert("BSRM"@.len() != "BREF_RAW"@.len());
            assert("BSRM"@.len() != "BVEL_RAW"@.len());
            assert("BSRM"@[1] != "BDHC"@[1]);
            assert("BSRM"@[1] != "BDSA"@[1]);
            assert("BSRM"@[1] != "BDZD"@[1]);
            assert("BSRM"@[1] != "BEET"@[1]);
            assert("BSRM"@[1] != "BOHP"@[1]);
            assert("BSRM"@[1] != "BREF"@[1]);
        },
        RadarType::Bsta => {
            assert("BSTA"@.len() != "BREF_RAW"@.len());
            assert("BSTA"@.len() != "BVEL_RAW"@.len());
            assert("BSTA"@[1] != "BDHC"@[1]);
            assert("BSTA"@[1] != "BDSA"@[1]);
            assert("BSTA"@[1] != "BDZD"@[1]);
            assert("BSTA"@[1] != "BEET"@[1]);
            assert("BSTA"@[1] != "BOHP"@[1]);
            assert("BSTA"@[1] != "BREF"@[1]);
            assert("BSTA"@[2] != "BSRM"@[2]);
        },
        RadarType::Bstp => {
            assert("BSTP"@.len() != "BREF_RAW"@.len());
            assert("BSTP"@.len() != "BVEL_RAW"@.len());
            assert("BSTP"@[1] != "BDHC"@[1]);
            assert("BSTP"@[1] != "BDSA"@[1]);
            assert("BSTP"@[1] != "BDZD"@[1]);
            assert("BSTP"@[1] != "BEET"@[1]);
            assert("BSTP"@[1] != "BOHP"@[1]);
            assert("BSTP"@[1] != "BREF"@[1]);
            assert("BSTP"@[2] != "BSRM"@[2]);
            assert("BSTP"@[3] != "BSTA"@[3]);
        },
        RadarType::Bvel => {
            assert("BVEL"@.len() != "BREF_RAW"@.len());
            assert("BVEL"@.len() != "BVEL_RAW"@.len());
            assert("BVEL"@[1] != "BDHC"@[1]);
            assert("BVEL"@[1] != "BDSA"@[1]);
            assert("BVEL"@[1] != "BDZD"@[1]);
            assert("BVEL"@[1] != "BEET"@[1]);
            assert("BVEL"@[1] != "BOHP"@[1]);
            assert("BVEL"@[1] != "BREF"@[1]);
            assert("BVEL"@[1] != "BSRM"@[1]);
            assert("BVEL"@[1] != "BSTA"@[1]);
            assert("BVEL"@[1] != "BSTP"@[1]);
        },
        RadarType::Cref => {
            assert("CREF"@.len() != "BREF_RAW"@.len());
            assert("CREF"@.len() != "BVEL_RAW"@.len());
            assert("CREF"@[0] != "BDHC"@[0]);
            assert("CREF"@[0] != "BDSA"@[0]);
            assert("CREF"@[0] != "BDZD"@[0]);
            assert("CREF"@[0] != "BEET"@[0]);
            assert("CREF"@[0] != "BOHP"@[0]);
            assert("CREF"@[0] != "BREF"@[0]);
            assert("CREF"@[0] != "BSRM"@[0]);
            assert("CREF"@[0] != "BSTA"@[0]);
            assert("CREF"@[0] != "BSTP"@[0]);
            assert("CREF"@[0] != "BVEL"@[0]);
        },
        RadarType::Hvil => {
            assert("HVIL"@.len() != "BREF_RAW"@.len());
            assert("HVIL"@.len() != "BVEL_RAW"@.len());
            assert("HVIL"@[0] != "BDHC"@[0]);
            assert("HVIL"@[0] != "BDSA"@[0]);
            assert("HVIL"@[0] != "BDZD"@[0]);
            assert("HVIL"@[0] != "BEET"@[0]);
            assert("HVIL"@[0] != "BOHP"@[0]);
            assert("HVIL"@[0] != "BREF"@[0]);
            assert("HVIL"@[0] != "BSRM"@[0]);
            assert("HVIL"@[0] != "BSTA"@[0]);
            assert("HVIL"@[0] != "BSTP"@[0]);
            assert("HVIL"@[0] != "BVEL"@[0]);
            assert("HVIL"@[0] != "CREF"@[0]);
        },
    }
}

/// A text that is the code of no product decodes to nothing.
pub proof fn lemma_unknown_radar_name(s: Seq<char>)
    requires
        forall|t: RadarType| radar_name(t) != s,
    ensures
        radar_of_name(s) is None,
{
    if radar_of_name(s) is Some {
        assert(radar_name(radar_of_name(s)->0) == s);
    }
}

/// The directory listing of one product at one radar station.
pub fn radar_listing_url(station: &str, radar_type: RadarType) -> (r: String)
    ensures
        r@ == "https://mrms.ncep.noaa.gov/data/RIDGEII/L2/"@ + station@ + "/"@ + radar_name(radar_type)
            + "/"@,
{
    let mut r = String::from_str("https://mrms.ncep.noaa.gov/data/RIDGEII/L2/");
    r.append(station);
    r.append("/");
    r.append(radar_type.as_str());
    r.append("/");
    r
}

} // verus!
