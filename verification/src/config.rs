//! Configuration records for one build run: the system identity, the
//! default cross-build environment variables, and free-form extra
//! environment entries.  The records themselves carry no behaviour beyond
//! the projection into an environment mapping.

use vstd::prelude::*;
use crate::strutil::str_eq;

verus! {

broadcast use vstd::string::group_string_axioms;

/// Identity of the system being built, as entered at configuration time.
pub struct System {
    pub name: String,
    pub version: String,
    pub author: String,
}

/// Word width of the target architecture.
#[derive(Clone, Copy, Debug, PartialEq, Eq, Structural)]
pub enum Bits {
    Arm32,
    Arm64,
}

impl Bits {
    /// The canonical textual form: `arm` for 32-bit, `arm64` for 64-bit.
    pub fn to_string(&self) -> (r: String)
        ensures
            *self == Bits::Arm32 ==> r@ == "arm"@,
            *self == Bits::Arm64 ==> r@ == "arm64"@,
    {
        match self {
            Bits::Arm32 => String::from_str("arm"),
            Bits::Arm64 => String::from_str("arm64"),
        }
    }

    /// Parses a word width.  `arm`, `arm32` and `32` name the 32-bit
    /// form, `arm64` and `64` the 64-bit form; anything else is rejected
    /// with a message naming the offending text.
    pub fn from_str(s: &str) -> (r: Result<Bits, String>)
        ensures
            (s@ == "arm"@ || s@ == "arm32"@ || s@ == "32"@) ==> r == Ok::<Bits, String>(Bits::Arm32),
            (s@ == "arm64"@ || s@ == "64"@) ==> r == Ok::<Bits, String>(Bits::Arm64),
            !(s@ == "arm"@ || s@ == "arm32"@ || s@ == "32"@ || s@ == "arm64"@ || s@ == "64"@)
                ==> (r is Err && r->Err_0@ == "arch type \""@ + s@ + "\" is incorrect!"@),
    {
        proof {
            reveal_strlit("arm");
            reveal_strlit("arm32");
            reveal_strlit("32");
            reveal_strlit("arm64");
            reveal_strlit("64");
            assert("arm"@.len() == 3 && "arm32"@.len() == 5 && "32"@.len() == 2
                && "arm64"@.len() == 5 && "64"@.len() == 2);
            assert("arm32"@[3] == '3' && "arm64"@[3] == '6');
            assert("32"@[0] == '3' && "64"@[0] == '6');
            assert("arm"@ != "arm64"@);
            assert("arm"@ != "64"@);
            assert("arm32"@ != "arm64"@);
            assert("arm32"@ != "64"@);
            assert("32"@ != "arm64"@);
            assert("32"@ != "64"@);
        }
        if str_eq(s, "arm") || str_eq(s, "arm32") || str_eq(s, "32") {
            Ok(Bits::Arm32)
        } else if str_eq(s, "arm64") || str_eq(s, "64") {
            Ok(Bits::Arm64)
        } else {
            let mut msg = String::from_str("arch type \"");
            msg.append(s);
            msg.append("\" is incorrect!");
            Err(msg)
        }
    }
}

/// The default environment variables of the cross-build: word width, host
/// and target triples, CPU architecture, and the optional float and FPU
/// flavours.
pub struct EnvDefault {
    pub bits: Bits,
    pub lfa_host: String,
    pub lfa_tgt: String,
    pub lfa_arch: String,
    pub lfa_float: Option<String>,
    pub lfa_fpu: Option<String>,
}

/// The textual form of a word width, at the specification level.
pub open spec fn spec_bits_str(b: Bits) -> Seq<char> {
    match b {
        Bits::Arm32 => "arm"@,
        Bits::Arm64 => "arm64"@,
    }
}

impl EnvDefault {
    /// The entries this record contributes to a build-stage environment,
    /// at the specification level: the four fixed variables, then the
    /// float and FPU flavours where they are set.
    pub open spec fn spec_env_entries(&self) -> Seq<(Seq<char>, Seq<char>)> {
        seq![
            ("LFA_ARM_ARCH"@, spec_bits_str(self.bits)),
            ("LFA_HOST"@, self.lfa_host@),
            ("LFA_TGT"@, self.lfa_tgt@),
            ("LFA_ARCH"@, self.lfa_arch@),
        ] + (match self.lfa_float {
            Some(f) => seq![("LFA_FLOAT"@, f@)],
            None => Seq::<(Seq<char>, Seq<char>)>::empty(),
        }) + (match self.lfa_fpu {
            Some(f) => seq![("LFA_FPU"@, f@)],
            None => Seq::<(Seq<char>, Seq<char>)>::empty(),
        })
    }

    /// The environment mapping this record contributes to build-stage
    /// processes.
    pub fn to_env_map(&self) -> (r: Vec<(String, String)>)
        ensures
            r@.map_values(|p: (String, String)| (p.0@, p.1@)) == self.spec_env_entries(),
    {
        let mut map: Vec<(String, String)> = Vec::new();
        map.push((String::from_str("LFA_ARM_ARCH"), self.bits.to_string()));
        map.push((String::from_str("LFA_HOST"), self.lfa_host.clone()));
        map.push((String::from_str("LFA_TGT"), self.lfa_tgt.clone()));
        map.push((String::from_str("LFA_ARCH"), self.lfa_arch.clone()));
        match &self.lfa_float {
            Some(lfa_float) => {
                map.push((String::from_str("LFA_FLOAT"), lfa_float.clone()));
            },
            None => {},
        }
        match &self.lfa_fpu {
            Some(lfa_fpu) => {
                map.push((String::from_str("LFA_FPU"), lfa_fpu.clone()));
            },
            None => {},
        }
        proof {
            assert(map@.map_values(|p: (String, String)| (p.0@, p.1@))
                =~= self.spec_env_entries());
        }
        map
    }
}

/// The whole configuration record: system identity, default environment,
/// and free-form extra environment entries.
pub struct Config {
    pub system: System,
    pub env_default: EnvDefault,
    pub env: Vec<(String, String)>,
}

} // verus!
