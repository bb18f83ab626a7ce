//! The departments whose syllabi are kept.

use crate::text::same_text;
use vstd::prelude::*;

verus! {

/// A department, by its short name.
#[derive(Debug, Clone, Copy, PartialEq, Eq, Structural, Hash)]
pub enum Department {
    CB,
    BSC,
    ICT,
    HCI,
    CHE,
    SCS,
    CMY,
    MLG,
    LTI,
    CEE,
    INI,
    CS,
    ROB,
    S3D,
    ECE,
    EPP,
    MSC,
    MEG,
    MSE,
    NVS,
    PHY,
    STA,
    MCS,
    CIT,
    BMD,
    BUS,
    ARC,
    III,
    DES,
    BXA,
    ETC,
    DRA,
    MUS,
    ART,
    BSA,
    CAS,
    H00,
    HSS,
    ISP,
    PE,
    ECO,
    ENG,
    HIS,
    PHI,
    ML,
    CST,
    PSY,
    CNB,
    SDS,
    PPP,
    PMP,
    MED,
    AEM,
    HC,
    ISM,
    STU,
    CMU,
}

/// The number of departments.
pub const DEPARTMENT_COUNT: usize = 57;

/// The department at the place `i` in the order of declaration.
pub open spec fn department_at(i: int) -> Department {
    if i == 0 {
        Department::CB
    } else if i == 1 {
        Department::BSC
    } else if i == 2 {
        Department::ICT
    } else if i == 3 {
        Department::HCI
    } else if i == 4 {
        Department::CHE
    } else if i == 5 {
        Department::SCS
    } else if i == 6 {
        Department::CMY
    } else if i == 7 {
        Department::MLG
    } else if i == 8 {
        Department::LTI
    } else if i == 9 {
        Department::CEE
    } else if i == 10 {
        Department::INI
    } else if i == 11 {
        Department::CS
    } else if i == 12 {
        Department::ROB
    } else if i == 13 {
        Department::S3D
    } else if i == 14 {
        Department::ECE
    } else if i == 15 {
        Department::EPP
    } else if i == 16 {
        Department::MSC
    } else if i == 17 {
        Department::MEG
    } else if i == 18 {
        Department::MSE
    } else if i == 19 {
        Department::NVS
    } else if i == 20 {
        Department::PHY
    } else if i == 21 {
        Department::STA
    } else if i == 22 {
        Department::MCS
    } else if i == 23 {
        Department::CIT
    } else if i == 24 {
        Department::BMD
    } else if i == 25 {
        Department::BUS
    } else if i == 26 {
        Department::ARC
    } else if i == 27 {
        Department::III
    } else if i == 28 {
        Department::DES
    } else if i == 29 {
        Department::BXA
    } else if i == 30 {
        Department::ETC
    } else if i == 31 {
        Department::DRA
    } else if i == 32 {
        Department::MUS
    } else if i == 33 {
        Department::ART
    } else if i == 34 {
        Department::BSA
    } else if i == 35 {
        Department::CAS
    } else if i == 36 {
        Department::H00
    } else if i == 37 {
        Department::HSS
    } else if i == 38 {
        Department::ISP
    } else if i == 39 {
        Department::PE
    } else if i == 40 {
        Department::ECO
    } else if i == 41 {
        Department::ENG
    } else if i == 42 {
        Department::HIS
    } else if i == 43 {
        Department::PHI
    } else if i == 44 {
        Department::ML
    } else if i == 45 {
        Department::CST
    } else if i == 46 {
        Department::PSY
    } else if i == 47 {
        Department::CNB
    } else if i == 48 {
        Department::SDS
    } else if i == 49 {
        Department::PPP
    } else if i == 50 {
        Department::PMP
    } else if i == 51 {
        Department::MED
    } else if i == 52 {
        Department::AEM
    } else if i == 53 {
        Department::HC
    } else if i == 54 {
        Department::ISM
    } else if i == 55 {
        Department::STU
    } else {
        Department::CMU
    }
}

/// The departments, in the order of their declaration.
pub open spec fn departments() -> Seq<Department> {
    Seq::new(DEPARTMENT_COUNT as nat, |i: int| department_at(i))
}

impl Department {
    /// The short name of the department.
    pub open spec fn name(self) -> Seq<char> {
        match self {
            Department::CB => "CB"@,
            Department::BSC => "BSC"@,
            Department::ICT => "ICT"@,
            Department::HCI => "HCI"@,
            Department::CHE => "CHE"@,
            Department::SCS => "SCS"@,
            Department::CMY => "CMY"@,
            Department::MLG => "MLG"@,
            Department::LTI => "LTI"@,
            Department::CEE => "CEE"@,
            Department::INI => "INI"@,
            Department::CS => "CS"@,
            Department::ROB => "ROB"@,
            Department::S3D => "S3D"@,
            Department::ECE => "ECE"@,
            Department::EPP => "EPP"@,
            Department::MSC => "MSC"@,
            Department::MEG => "MEG"@,
            Department::MSE => "MSE"@,
            Department::NVS => "NVS"@,
            Department::PHY => "PHY"@,
            Department::STA => "STA"@,
            Department::MCS => "MCS"@,
            Department::CIT => "CIT"@,
            Department::BMD => "BMD"@,
            Department::BUS => "BUS"@,
            Department::ARC => "ARC"@,
            Department::III => "III"@,
            Department::DES => "DES"@,
            Department::BXA => "BXA"@,
            Department::ETC => "ETC"@,
            Department::DRA => "DRA"@,
            Department::MUS => "MUS"@,
            Department::ART => "ART"@,
            Department::BSA => "BSA"@,
            Department::CAS => "CAS"@,
            Department::H00 => "H00"@,
            Department::HSS => "HSS"@,
            Department::ISP => "ISP"@,
            Department::PE => "PE"@,
            Department::ECO => "ECO"@,
            Department::ENG => "ENG"@,
            Department::HIS => "HIS"@,
            Department::PHI => "PHI"@,
            Department::ML => "ML"@,
            Department::CST => "CST"@,
            Department::PSY => "PSY"@,
            Department::CNB => "CNB"@,
            Department::SDS => "SDS"@,
            Department::PPP => "PPP"@,
            Department::PMP => "PMP"@,
            Department::MED => "MED"@,
            Department::AEM => "AEM"@,
            Department::HC => "HC"@,
            Department::ISM => "ISM"@,
            Department::STU => "STU"@,
            Department::CMU => "CMU"@,
        }
    }

    /// The place of the department in the order of declaration.
    pub open spec fn index(self) -> int {
        match self {
            Department::CB => 0,
            Department::BSC => 1,
            Department::ICT => 2,
            Department::HCI => 3,
            Department::CHE => 4,
            Department::SCS => 5,
            Department::CMY => 6,
            Department::MLG => 7,
            Department::LTI => 8,
            Department::CEE => 9,
            Department::INI => 10,
            Department::CS => 11,
            Department::ROB => 12,
            Department::S3D => 13,
            Department::ECE => 14,
            Department::EPP => 15,
            Department::MSC => 16,
            Department::MEG => 17,
            Department::MSE => 18,
            Department::NVS => 19,
            Department::PHY => 20,
            Department::STA => 21,
            Department::MCS => 22,
            Department::CIT => 23,
            Department::BMD => 24,
            Department::BUS => 25,
            Department::ARC => 26,
            Department::III => 27,
            Department::DES => 28,
            Department::BXA => 29,
            Department::ETC => 30,
            Department::DRA => 31,
            Department::MUS => 32,
            Department::ART => 33,
            Department::BSA => 34,
            Department::CAS => 35,
            Department::H00 => 36,
            Department::HSS => 37,
            Department::ISP => 38,
            Department::PE => 39,
            Department::ECO => 40,
            Department::ENG => 41,
            Department::HIS => 42,
            Department::PHI => 43,
            Department::ML => 44,
            Department::CST => 45,
            Department::PSY => 46,
            Department::CNB => 47,
            Department::SDS => 48,
            Department::PPP => 49,
            Department::PMP => 50,
            Department::MED => 51,
            Department::AEM => 52,
            Department::HC => 53,
            Department::ISM => 54,
            Department::STU => 55,
            Department::CMU => 56,
        }
    }

    /// The short name of the department.
    pub fn as_str(&self) -> (r: &'static str)
        ensures
            r@ == self.name(),
    {
        match self {
            Department::CB => "CB",
            Department::BSC => "BSC",
            Department::ICT => "ICT",
            Department::HCI => "HCI",
            Department::CHE => "CHE",
            Department::SCS => "SCS",
            Department::CMY => "CMY",
            Department::MLG => "MLG",
            Department::LTI => "LTI",
            Department::CEE => "CEE",
            Department::INI => "INI",
            Department::CS => "CS",
            Department::ROB => "ROB",
            Department::S3D => "S3D",
            Department::ECE => "ECE",
            Department::EPP => "EPP",
            Department::MSC => "MSC",
            Department::MEG => "MEG",
            Department::MSE => "MSE",
            Department::NVS => "NVS",
            Department::PHY => "PHY",
            Department::STA => "STA",
            Department::MCS => "MCS",
            Department::CIT => "CIT",
            Department::BMD => "BMD",
            Department::BUS => "BUS",
            Department::ARC => "ARC",
            Department::III => "III",
            Department::DES => "DES",
            Department::BXA => "BXA",
            Department::ETC => "ETC",
            Department::DRA => "DRA",
            Department::MUS => "MUS",
            Department::ART => "ART",
            Department::BSA => "BSA",
            Department::CAS => "CAS",
            Department::H00 => "H00",
            Department::HSS => "HSS",
            Department::ISP => "ISP",
            Department::PE => "PE",
            Department::ECO => "ECO",
            Department::ENG => "ENG",
            Department::HIS => "HIS",
            Department::PHI => "PHI",
            Department::ML => "ML",
            Department::CST => "CST",
            Department::PSY => "PSY",
            Department::CNB => "CNB",
            Department::SDS => "SDS",
            Department::PPP => "PPP",
            Department::PMP => "PMP",
            Department::MED => "MED",
            Department::AEM => "AEM",
            Department::HC => "HC",
            Department::ISM => "ISM",
            Department::STU => "STU",
            Department::CMU => "CMU",
        }
    }

    /// The short name of the department.
    pub fn to_string(&self) -> (r: String)
        ensures
            r@ == self.name(),
    {
        self.as_str().to_owned()
    }

    /// The department at the place `i` in the order of declaration; the last
    /// one for any `i` beyond.
    pub fn from_index(i: usize) -> (r: Department)
        ensures
            r == department_at(i as int),
    {
        if i == 0 {
            Department::CB
        } else if i == 1 {
            Department::BSC
        } else if i == 2 {
            Department::ICT
        } else if i == 3 {
            Department::HCI
        } else if i == 4 {
            Department::CHE
        } else if i == 5 {
            Department::SCS
        } else if i == 6 {
            Department::CMY
        } else if i == 7 {
            Department::MLG
        } else if i == 8 {
            Department::LTI
        } else if i == 9 {
            Department::CEE
        } else if i == 10 {
            Department::INI
        } else if i == 11 {
            Department::CS
        } else if i == 12 {
            Department::ROB
        } else if i == 13 {
            Department::S3D
        } else if i == 14 {
            Department::ECE
        } else if i == 15 {
            Department::EPP
        } else if i == 16 {
            Department::MSC
        } else if i == 17 {
            Department::MEG
        } else if i == 18 {
            Department::MSE
        } else if i == 19 {
            Department::NVS
        } else if i == 20 {
            Department::PHY
        } else if i == 21 {
            Department::STA
        } else if i == 22 {
            Department::MCS
        } else if i == 23 {
            Department::CIT
        } else if i == 24 {
            Department::BMD
        } else if i == 25 {
            Department::BUS
        } else if i == 26 {
            Department::ARC
        } else if i == 27 {
            Department::III
        } else if i == 28 {
            Department::DES
        } else if i == 29 {
            Department::BXA
        } else if i == 30 {
            Department::ETC
        } else if i == 31 {
            Department::DRA
        } else if i == 32 {
            Department::MUS
        } else if i == 33 {
            Department::ART
        } else if i == 34 {
            Department::BSA
        } else if i == 35 {
            Department::CAS
        } else if i == 36 {
            Department::H00
        } else if i == 37 {
            Department::HSS
        } else if i == 38 {
            Department::ISP
        } else if i == 39 {
            Department::PE
        } else if i == 40 {
            Department::ECO
        } else if i == 41 {
            Department::ENG
        } else if i == 42 {
            Department::HIS
        } else if i == 43 {
            Department::PHI
        } else if i == 44 {
            Department::ML
        } else if i == 45 {
            Department::CST
        } else if i == 46 {
            Department::PSY
        } else if i == 47 {
            Department::CNB
        } else if i == 48 {
            Department::SDS
        } else if i == 49 {
            Department::PPP
        } else if i == 50 {
            Department::PMP
        } else if i == 51 {
            Department::MED
        } else if i == 52 {
            Department::AEM
        } else if i == 53 {
            Department::HC
        } else if i == 54 {
            Department::ISM
        } else if i == 55 {
            Department::STU
        } else {
            Department::CMU
        }
    }

    /// Every department, in the order of declaration.
    pub fn all() -> (r: Vec<Department>)
        ensures
            r@ == departments(),
            r@.len() == DEPARTMENT_COUNT,
    {
        let mut v: Vec<Department> = Vec::new();
        let mut i: usize = 0;
        while i < DEPARTMENT_COUNT
            invariant
                i <= DEPARTMENT_COUNT,
                v@.len() == i,
                forall|k: int| 0 <= k < i ==> v@[k] == department_at(k),
            decreases DEPARTMENT_COUNT - i,
        {
            v.push(Department::from_index(i));
            i += 1;
        }
        assert(v@ =~= departments());
        v
    }

    /// The department with the short name `s`, spelled exactly.
    pub fn from_str(s: &str) -> (r: Result<Department, ()>)
        ensures
            r == department_of(s@),
    {
        if same_text(s, "CB") {
            Ok(Department::CB)
        }         else if same_text(s, "BSC") {
            Ok(Department::BSC)
        }         else if same_text(s, "ICT") {
            Ok(Department::ICT)
        }         else if same_text(s, "HCI") {
            Ok(Department::HCI)
        }         else if same_text(s, "CHE") {
            Ok(Department::CHE)
        }         else if same_text(s, "SCS") {
            Ok(Department::SCS)
        }         else if same_text(s, "CMY") {
            Ok(Department::CMY)
        }         else if same_text(s, "MLG") {
            Ok(Department::MLG)
        }         else if same_text(s, "LTI") {
            Ok(Department::LTI)
        }         else if same_text(s, "CEE") {
            Ok(Department::CEE)
        }         else if same_text(s, "INI") {
            Ok(Department::INI)
        }         else if same_text(s, "CS") {
            Ok(Department::CS)
        }         else if same_text(s, "ROB") {
            Ok(Department::ROB)
        }         else if same_text(s, "S3D") {
            Ok(Department::S3D)
        }         else if same_text(s, "ECE") {
            Ok(Department::ECE)
        }         else if same_text(s, "EPP") {
            Ok(Department::EPP)
        }         else if same_text(s, "MSC") {
            Ok(Department::MSC)
        }         else if same_text(s, "MEG") {
            Ok(Department::MEG)
        }         else if same_text(s, "MSE") {
            Ok(Department::MSE)
        }         else if same_text(s, "NVS") {
            Ok(Department::NVS)
        }         else if same_text(s, "PHY") {
            Ok(Department::PHY)
        }         else if same_text(s, "STA") {
            Ok(Department::STA)
        }         else if same_text(s, "MCS") {
            Ok(Department::MCS)
        }         else if same_text(s, "CIT") {
            Ok(Department::CIT)
        }         else if same_text(s, "BMD") {
            Ok(Department::BMD)
        }         else if same_text(s, "BUS") {
            Ok(Department::BUS)
        }         else if same_text(s, "ARC") {
            Ok(Department::ARC)
        }         else if same_text(s, "III") {
            Ok(Department::III)
        }         else if same_text(s, "DES") {
            Ok(Department::DES)
        }         else if same_text(s, "BXA") {
            Ok(Department::BXA)
        }         else if same_text(s, "ETC") {
            Ok(Department::ETC)
        }         else if same_text(s, "DRA") {
            Ok(Department::DRA)
        }         else if same_text(s, "MUS") {
            Ok(Department::MUS)
        }         else if same_text(s, "ART") {
            Ok(Department::ART)
        }         else if same_text(s, "BSA") {
            Ok(Department::BSA)
        }         else if same_text(s, "CAS") {
            Ok(Department::CAS)
        }         else if same_text(s, "H00") {
            Ok(Department::H00)
        }         else if same_text(s, "HSS") {
            Ok(Department::HSS)
        }         else if same_text(s, "ISP") {
            Ok(Department::ISP)
        }         else if same_text(s, "PE") {
            Ok(Department::PE)
        }         else if same_text(s, "ECO") {
            Ok(Department::ECO)
        }         else if same_text(s, "ENG") {
            Ok(Department::ENG)
        }         else if same_text(s, "HIS") {
            Ok(Department::HIS)
        }         else if same_text(s, "PHI") {
            Ok(Department::PHI)
        }         else if same_text(s, "ML") {
            Ok(Department::ML)
        }         else if same_text(s, "CST") {
            Ok(Department::CST)
        }         else if same_text(s, "PSY") {
            Ok(Department::PSY)
        }         else if same_text(s, "CNB") {
            Ok(Department::CNB)
        }         else if same_text(s, "SDS") {
            Ok(Department::SDS)
        }         else if same_text(s, "PPP") {
            Ok(Department::PPP)
        }         else if same_text(s, "PMP") {
            Ok(Department::PMP)
        }         else if same_text(s, "MED") {
            Ok(Department::MED)
        }         else if same_text(s, "AEM") {
            Ok(Department::AEM)
        }         else if same_text(s, "HC") {
            Ok(Department::HC)
        }         else if same_text(s, "ISM") {
            Ok(Department::ISM)
        }         else if same_text(s, "STU") {
            Ok(Department::STU)
        }         else if same_text(s, "CMU") {
            Ok(Department::CMU)
        } else {
            Err(())
        }
    }
}

/// The department with the short name `s`, spelled exactly, if there is one.
pub open spec fn department_of(s: Seq<char>) -> Result<Department, ()> {
    if s == "CB"@ {
        Ok(Department::CB)
    }     else if s == "BSC"@ {
        Ok(Department::BSC)
    }     else if s == "ICT"@ {
        Ok(Department::ICT)
    }     else if s == "HCI"@ {
        Ok(Department::HCI)
    }     else if s == "CHE"@ {
        Ok(Department::CHE)
    }     else if s == "SCS"@ {
        Ok(Department::SCS)
    }     else if s == "CMY"@ {
        Ok(Department::CMY)
    }     else if s == "MLG"@ {
        Ok(Department::MLG)
    }     else if s == "LTI"@ {
        Ok(Department::LTI)
    }     else if s == "CEE"@ {
        Ok(Department::CEE)
    }     else if s == "INI"@ {
        Ok(Department::INI)
    }     else if s == "CS"@ {
        Ok(Department::CS)
    }     else if s == "ROB"@ {
        Ok(Department::ROB)
    }     else if s == "S3D"@ {
        Ok(Department::S3D)
    }     else if s == "ECE"@ {
        Ok(Department::ECE)
    }     else if s == "EPP"@ {
        Ok(Department::EPP)
    }     else if s == "MSC"@ {
        Ok(Department::MSC)
    }     else if s == "MEG"@ {
        Ok(Department::MEG)
    }     else if s == "MSE"@ {
        Ok(Department::MSE)
    }     else if s == "NVS"@ {
        Ok(Department::NVS)
    }     else if s == "PHY"@ {
        Ok(Department::PHY)
    }     else if s == "STA"@ {
        Ok(Department::STA)
    }     else if s == "MCS"@ {
        Ok(Department::MCS)
    }     else if s == "CIT"@ {
        Ok(Department::CIT)
    }     else if s == "BMD"@ {
        Ok(Department::BMD)
    }     else if s == "BUS"@ {
        Ok(Department::BUS)
    }     else if s == "ARC"@ {
        Ok(Department::ARC)
    }     else if s == "III"@ {
        Ok(Department::III)
    }     else if s == "DES"@ {
        Ok(Department::DES)
    }     else if s == "BXA"@ {
        Ok(Department::BXA)
    }     else if s == "ETC"@ {
        Ok(Department::ETC)
    }     else if s == "DRA"@ {
        Ok(Department::DRA)
    }     else if s == "MUS"@ {
        Ok(Department::MUS)
    }     else if s == "ART"@ {
        Ok(Department::ART)
    }     else if s == "BSA"@ {
        Ok(Department::BSA)
    }     else if s == "CAS"@ {
        Ok(Department::CAS)
    }     else if s == "H00"@ {
        Ok(Department::H00)
    }     else if s == "HSS"@ {
        Ok(Department::HSS)
    }     else if s == "ISP"@ {
        Ok(Department::ISP)
    }     else if s == "PE"@ {
        Ok(Department::PE)
    }     else if s == "ECO"@ {
        Ok(Department::ECO)
    }     else if s == "ENG"@ {
        Ok(Department::ENG)
    }     else if s == "HIS"@ {
        Ok(Department::HIS)
    }     else if s == "PHI"@ {
        Ok(Department::PHI)
    }     else if s == "ML"@ {
        Ok(Department::ML)
    }     else if s == "CST"@ {
        Ok(Department::CST)
    }     else if s == "PSY"@ {
        Ok(Department::PSY)
    }     else if s == "CNB"@ {
        Ok(Department::CNB)
    }     else if s == "SDS"@ {
        Ok(Department::SDS)
    }     else if s == "PPP"@ {
        Ok(Department::PPP)
    }     else if s == "PMP"@ {
        Ok(Department::PMP)
    }     else if s == "MED"@ {
        Ok(Department::MED)
    }     else if s == "AEM"@ {
        Ok(Department::AEM)
    }     else if s == "HC"@ {
        Ok(Department::HC)
    }     else if s == "ISM"@ {
        Ok(Department::ISM)
    }     else if s == "STU"@ {
        Ok(Department::STU)
    }     else if s == "CMU"@ {
        Ok(Department::CMU)
    } else {
        Err(())
    }
}

/// Reading the short name of a department gives the department back.
pub proof fn lemma_department_round_trip(d: Department)
    ensures
        department_of(d.name()) == Ok::<Department, ()>(d),
{
    reveal_strlit("CB");
    reveal_strlit("BSC");
    reveal_strlit("ICT");
    reveal_strlit("HCI");
    reveal_strlit("CHE");
    reveal_strlit("SCS");
    reveal_strlit("CMY");
    reveal_strlit("MLG");
    reveal_strlit("LTI");
    reveal_strlit("CEE");
    reveal_strlit("INI");
    reveal_strlit("CS");
    reveal_strlit("ROB");
    reveal_strlit("S3D");
    reveal_strlit("ECE");
    reveal_strlit("EPP");
    reveal_strlit("MSC");
    reveal_strlit("MEG");
    reveal_strlit("MSE");
    reveal_strlit("NVS");
    reveal_strlit("PHY");
    reveal_strlit("STA");
    reveal_strlit("MCS");
    reveal_strlit("CIT");
    reveal_strlit("BMD");
    reveal_strlit("BUS");
    reveal_strlit("ARC");
    reveal_strlit("III");
    reveal_strlit("DES");
    reveal_strlit("BXA");
    reveal_strlit("ETC");
    reveal_strlit("DRA");
    reveal_strlit("MUS");
    reveal_strlit("ART");
    reveal_strlit("BSA");
    reveal_strlit("CAS");
    reveal_strlit("H00");
    reveal_strlit("HSS");
    reveal_strlit("ISP");
    reveal_strlit("PE");
    reveal_strlit("ECO");
    reveal_strlit("ENG");
    reveal_strlit("HIS");
    reveal_strlit("PHI");
    reveal_strlit("ML");
    reveal_strlit("CST");
    reveal_strlit("PSY");
    reveal_strlit("CNB");
    reveal_strlit("SDS");
    reveal_strlit("PPP");
    reveal_strlit("PMP");
    reveal_strlit("MED");
    reveal_strlit("AEM");
    reveal_strlit("HC");
    reveal_strlit("ISM");
    reveal_strlit("STU");
    reveal_strlit("CMU");
    assert("CB"@.len() == 2 && "CB"@[0] == 'C' && "CB"@[1] == 'B');
    assert("BSC"@.len() == 3 && "BSC"@[0] == 'B' && "BSC"@[1] == 'S' && "BSC"@[2] == 'C');
    assert("ICT"@.len() == 3 && "ICT"@[0] == 'I' && "ICT"@[1] == 'C' && "ICT"@[2] == 'T');
    assert("HCI"@.len() == 3 && "HCI"@[0] == 'H' && "HCI"@[1] == 'C' && "HCI"@[2] == 'I');
    assert("CHE"@.len() == 3 && "CHE"@[0] == 'C' && "CHE"@[1] == 'H' && "CHE"@[2] == 'E');
    assert("SCS"@.len() == 3 && "SCS"@[0] == 'S' && "SCS"@[1] == 'C' && "SCS"@[2] == 'S');
    assert("CMY"@.len() == 3 && "CMY"@[0] == 'C' && "CMY"@[1] == 'M' && "CMY"@[2] == 'Y');
    assert("MLG"@.len() == 3 && "MLG"@[0] == 'M' && "MLG"@[1] == 'L' && "MLG"@[2] == 'G');
    assert("LTI"@.len() == 3 && "LTI"@[0] == 'L' && "LTI"@[1] == 'T' && "LTI"@[2] == 'I');
    assert("CEE"@.len() == 3 && "CEE"@[0] == 'C' && "CEE"@[1] == 'E' && "CEE"@[2] == 'E');
    assert("INI"@.len() == 3 && "INI"@[0] == 'I' && "INI"@[1] == 'N' && "INI"@[2] == 'I');
    assert("CS"@.len() == 2 && "CS"@[0] == 'C' && "CS"@[1] == 'S');
    assert("ROB"@.len() == 3 && "ROB"@[0] == 'R' && "ROB"@[1] == 'O' && "ROB"@[2] == 'B');
    assert("S3D"@.len() == 3 && "S3D"@[0] == 'S' && "S3D"@[1] == '3' && "S3D"@[2] == 'D');
    assert("ECE"@.len() == 3 && "ECE"@[0] == 'E' && "ECE"@[1] == 'C' && "ECE"@[2] == 'E');
    assert("EPP"@.len() == 3 && "EPP"@[0] == 'E' && "EPP"@[1] == 'P' && "EPP"@[2] == 'P');
    assert("MSC"@.len() == 3 && "MSC"@[0] == 'M' && "MSC"@[1] == 'S' && "MSC"@[2] == 'C');
    assert("MEG"@.len() == 3 && "MEG"@[0] == 'M' && "MEG"@[1] == 'E' && "MEG"@[2] == 'G');
    assert("MSE"@.len() == 3 && "MSE"@[0] == 'M' && "MSE"@[1] == 'S' && "MSE"@[2] == 'E');
    assert("NVS"@.len() == 3 && "NVS"@[0] == 'N' && "NVS"@[1] == 'V' && "NVS"@[2] == 'S');
    assert("PHY"@.len() == 3 && "PHY"@[0] == 'P' && "PHY"@[1] == 'H' && "PHY"@[2] == 'Y');
    assert("STA"@.len() == 3 && "STA"@[0] == 'S' && "STA"@[1] == 'T' && "STA"@[2] == 'A');
    assert("MCS"@.len() == 3 && "MCS"@[0] == 'M' && "MCS"@[1] == 'C' && "MCS"@[2] == 'S');
    assert("CIT"@.len() == 3 && "CIT"@[0] == 'C' && "CIT"@[1] == 'I' && "CIT"@[2] == 'T');
    assert("BMD"@.len() == 3 && "BMD"@[0] == 'B' && "BMD"@[1] == 'M' && "BMD"@[2] == 'D');
    assert("BUS"@.len() == 3 && "BUS"@[0] == 'B' && "BUS"@[1] == 'U' && "BUS"@[2] == 'S');
    assert("ARC"@.len() == 3 && "ARC"@[0] == 'A' && "ARC"@[1] == 'R' && "ARC"@[2] == 'C');
    assert("III"@.len() == 3 && "III"@[0] == 'I' && "III"@[1] == 'I' && "III"@[2] == 'I');
    assert("DES"@.len() == 3 && "DES"@[0] == 'D' && "DES"@[1] == 'E' && "DES"@[2] == 'S');
    assert("BXA"@.len() == 3 && "BXA"@[0] == 'B' && "BXA"@[1] == 'X' && "BXA"@[2] == 'A');
    assert("ETC"@.len() == 3 && "ETC"@[0] == 'E' && "ETC"@[1] == 'T' && "ETC"@[2] == 'C');
    assert("DRA"@.len() == 3 && "DRA"@[0] == 'D' && "DRA"@[1] == 'R' && "DRA"@[2] == 'A');
    assert("MUS"@.len() == 3 && "MUS"@[0] == 'M' && "MUS"@[1] == 'U' && "MUS"@[2] == 'S');
    assert("ART"@.len() == 3 && "ART"@[0] == 'A' && "ART"@[1] == 'R' && "ART"@[2] == 'T');
    assert("BSA"@.len() == 3 && "BSA"@[0] == 'B' && "BSA"@[1] == 'S' && "BSA"@[2] == 'A');
    assert("CAS"@.len() == 3 && "CAS"@[0] == 'C' && "CAS"@[1] == 'A' && "CAS"@[2] == 'S');
    assert("H00"@.len() == 3 && "H00"@[0] == 'H' && "H00"@[1] == '0' && "H00"@[2] == '0');
    assert("HSS"@.len() == 3 && "HSS"@[0] == 'H' && "HSS"@[1] == 'S' && "HSS"@[2] == 'S');
    assert("ISP"@.len() == 3 && "ISP"@[0] == 'I' && "ISP"@[1] == 'S' && "ISP"@[2] == 'P');
    assert("PE"@.len() == 2 && "PE"@[0] == 'P' && "PE"@[1] == 'E');
    assert("ECO"@.len() == 3 && "ECO"@[0] == 'E' && "ECO"@[1] == 'C' && "ECO"@[2] == 'O');
    assert("ENG"@.len() == 3 && "ENG"@[0] == 'E' && "ENG"@[1] == 'N' && "ENG"@[2] == 'G');
    assert("HIS"@.len() == 3 && "HIS"@[0] == 'H' && "HIS"@[1] == 'I' && "HIS"@[2] == 'S');
    assert("PHI"@.len() == 3 && "PHI"@[0] == 'P' && "PHI"@[1] == 'H' && "PHI"@[2] == 'I');
    assert("ML"@.len() == 2 && "ML"@[0] == 'M' && "ML"@[1] == 'L');
    assert("CST"@.len() == 3 && "CST"@[0] == 'C' && "CST"@[1] == 'S' && "CST"@[2] == 'T');
    assert("PSY"@.len() == 3 && "PSY"@[0] == 'P' && "PSY"@[1] == 'S' && "PSY"@[2] == 'Y');
    assert("CNB"@.len() == 3 && "CNB"@[0] == 'C' && "CNB"@[1] == 'N' && "CNB"@[2] == 'B');
    assert("SDS"@.len() == 3 && "SDS"@[0] == 'S' && "SDS"@[1] == 'D' && "SDS"@[2] == 'S');
    assert("PPP"@.len() == 3 && "PPP"@[0] == 'P' && "PPP"@[1] == 'P' && "PPP"@[2] == 'P');
    assert("PMP"@.len() == 3 && "PMP"@[0] == 'P' && "PMP"@[1] == 'M' && "PMP"@[2] == 'P');
    assert("MED"@.len() == 3 && "MED"@[0] == 'M' && "MED"@[1] == 'E' && "MED"@[2] == 'D');
    assert("AEM"@.len() == 3 && "AEM"@[0] == 'A' && "AEM"@[1] == 'E' && "AEM"@[2] == 'M');
    assert("HC"@.len() == 2 && "HC"@[0] == 'H' && "HC"@[1] == 'C');
    assert("ISM"@.len() == 3 && "ISM"@[0] == 'I' && "ISM"@[1] == 'S' && "ISM"@[2] == 'M');
    assert("STU"@.len() == 3 && "STU"@[0] == 'S' && "STU"@[1] == 'T' && "STU"@[2] == 'U');
    assert("CMU"@.len() == 3 && "CMU"@[0] == 'C' && "CMU"@[1] == 'M' && "CMU"@[2] == 'U');
}

/// Every department stands in `departments()`, at its index.
pub proof fn lemma_departments_complete(d: Department)
    ensures
        0 <= d.index() < departments().len(),
        departments().len() == DEPARTMENT_COUNT,
        departments()[d.index()] == d,
        forall|i: int| 0 <= i < DEPARTMENT_COUNT && departments()[i] == d ==> i == d.index(),
{
    assert forall|i: int| 0 <= i < DEPARTMENT_COUNT && departments()[i] == d implies i
        == d.index() by {
        assert(department_at(i) == d);
    }
}

} // verus!
