//! The protocol's code tables. Each maps the integers that travel on the wire
//! to the variants of an enumeration and rejects every other integer, handing
//! back the value it saw.

use crate::protocol::DecodeError;
use vstd::prelude::*;
use vstd::std_specs::convert::TryFromSpecImpl;

verus! {

/// The kind of session that is running.
#[derive(Debug, Clone, Copy, PartialEq, Eq)]
pub enum SessionType {
    Practice,
    Qualifying,
    Superpole,
    Race,
    Hotlap,
    Hotstint,
    HotlapSuperpole,
    Replay,
}

impl SessionType {
    /// The table of session types: what each code stands for.
    pub open spec fn of_code(value: u8) -> Result<SessionType, DecodeError> {
        match value {
            0 => Ok(SessionType::Practice),
            4 => Ok(SessionType::Qualifying),
            9 => Ok(SessionType::Superpole),
            10 => Ok(SessionType::Race),
            11 => Ok(SessionType::Hotlap),
            12 => Ok(SessionType::Hotstint),
            13 => Ok(SessionType::HotlapSuperpole),
            14 => Ok(SessionType::Replay),
            x => Err(DecodeError::UnknownSessionType(x)),
        }
    }

    /// The codes that the table lists.
    pub open spec fn is_code(value: u8) -> bool {
        value == 0 || value == 4 || 9 <= value <= 14
    }
}

impl TryFrom<u8> for SessionType {
    type Error = DecodeError;

    /// Looks a code up in the table. A code that the table lacks comes back
    /// unchanged inside the error.
    fn try_from(value: u8) -> (r: Result<Self, Self::Error>)
        ensures
            r == SessionType::of_code(value),
            r is Ok <==> SessionType::is_code(value),
            r is Err ==> r == Err::<SessionType, DecodeError>(
                DecodeError::UnknownSessionType(value),
            ),
    {
        match value {
            0 => Ok(SessionType::Practice),
            4 => Ok(SessionType::Qualifying),
            9 => Ok(SessionType::Superpole),
            10 => Ok(SessionType::Race),
            11 => Ok(SessionType::Hotlap),
            12 => Ok(SessionType::Hotstint),
            13 => Ok(SessionType::HotlapSuperpole),
            14 => Ok(SessionType::Replay),
            x => Err(DecodeError::UnknownSessionType(x)),
        }
    }
}

impl TryFromSpecImpl<u8> for SessionType {
    open spec fn obeys_try_from_spec() -> bool {
        true
    }

    open spec fn try_from_spec(value: u8) -> Result<Self, Self::Error> {
        SessionType::of_code(value)
    }
}

/// How far the running session has come.
#[derive(Debug, Clone, Copy, PartialEq, Eq)]
pub enum SessionPhase {
    NoPhase,
    Starting,
    PreFormation,
    FormationLap,
    PreSession,
    Session,
    SessionOver,
    PostSession,
    ResultUi,
}

impl SessionPhase {
    /// The table of session phases: what each code stands for.
    pub open spec fn of_code(value: u8) -> Result<SessionPhase, DecodeError> {
        match value {
            0 => Ok(SessionPhase::NoPhase),
            1 => Ok(SessionPhase::Starting),
            2 => Ok(SessionPhase::PreFormation),
            3 => Ok(SessionPhase::FormationLap),
            4 => Ok(SessionPhase::PreSession),
            5 => Ok(SessionPhase::Session),
            6 => Ok(SessionPhase::SessionOver),
            7 => Ok(SessionPhase::PostSession),
            8 => Ok(SessionPhase::ResultUi),
            x => Err(DecodeError::UnknownSessionPhase(x)),
        }
    }

    /// The codes that the table lists.
    pub open spec fn is_code(value: u8) -> bool {
        value <= 8
    }
}

impl TryFrom<u8> for SessionPhase {
    type Error = DecodeError;

    /// Looks a code up in the table. A code that the table lacks comes back
    /// unchanged inside the error.
    fn try_from(value: u8) -> (r: Result<Self, Self::Error>)
        ensures
            r == SessionPhase::of_code(value),
            r is Ok <==> SessionPhase::is_code(value),
            r is Err ==> r == Err::<SessionPhase, DecodeError>(
                DecodeError::UnknownSessionPhase(value),
            ),
    {
        match value {
            0 => Ok(SessionPhase::NoPhase),
            1 => Ok(SessionPhase::Starting),
            2 => Ok(SessionPhase::PreFormation),
            3 => Ok(SessionPhase::FormationLap),
            4 => Ok(SessionPhase::PreSession),
            5 => Ok(SessionPhase::Session),
            6 => Ok(SessionPhase::SessionOver),
            7 => Ok(SessionPhase::PostSession),
            8 => Ok(SessionPhase::ResultUi),
            x => Err(DecodeError::UnknownSessionPhase(x)),
        }
    }
}

impl TryFromSpecImpl<u8> for SessionPhase {
    open spec fn obeys_try_from_spec() -> bool {
        true
    }

    open spec fn try_from_spec(value: u8) -> Result<Self, Self::Error> {
        SessionPhase::of_code(value)
    }
}

/// Where on the circuit a car is.
#[derive(Debug, Clone, Copy, PartialEq, Eq)]
pub enum CarLocation {
    NoLocation,
    Track,
    Pitlane,
    PitEntry,
    PitExit,
}

impl CarLocation {
    /// The table of car locations: what each code stands for.
    pub open spec fn of_code(value: u8) -> Result<CarLocation, DecodeError> {
        match value {
            0 => Ok(CarLocation::NoLocation),
            1 => Ok(CarLocation::Track),
            2 => Ok(CarLocation::Pitlane),
            3 => Ok(CarLocation::PitEntry),
            4 => Ok(CarLocation::PitExit),
            x => Err(DecodeError::UnknownCarLocation(x)),
        }
    }

    /// The codes that the table lists.
    pub open spec fn is_code(value: u8) -> bool {
        value <= 4
    }
}

impl TryFrom<u8> for CarLocation {
    type Error = DecodeError;

    /// Looks a code up in the table. A code that the table lacks comes back
    /// unchanged inside the error.
    fn try_from(value: u8) -> (r: Result<Self, Self::Error>)
        ensures
            r == CarLocation::of_code(value),
            r is Ok <==> CarLocation::is_code(value),
            r is Err ==> r == Err::<CarLocation, DecodeError>(
                DecodeError::UnknownCarLocation(value),
            ),
    {
        match value {
            0 => Ok(CarLocation::NoLocation),
            1 => Ok(CarLocation::Track),
            2 => Ok(CarLocation::Pitlane),
            3 => Ok(CarLocation::PitEntry),
            4 => Ok(CarLocation::PitExit),
            x => Err(DecodeError::UnknownCarLocation(x)),
        }
    }
}

impl TryFromSpecImpl<u8> for CarLocation {
    open spec fn obeys_try_from_spec() -> bool {
        true
    }

    open spec fn try_from_spec(value: u8) -> Result<Self, Self::Error> {
        CarLocation::of_code(value)
    }
}

/// The country of a driver or a team.
#[derive(Debug, Clone, Copy, PartialEq, Eq)]
pub enum Nationality {
    Any,
    Italy,
    Germany,
    France,
    Spain,
    GreatBritain,
    Hungary,
    Belgium,
    Switzerland,
    Austria,
    Russia,
    Thailand,
    Netherlands,
    Poland,
    Argentina,
    Monaco,
    Ireland,
    Brazil,
    SouthAfrica,
    PuertoRico,
    Slovakia,
    Oman,
    Greece,
    SaudiArabia,
    Norway,
    Turkey,
    SouthKorea,
    Lebanon,
    Armenia,
    Mexico,
    Sweden,
    Finland,
    Denmark,
    Croatia,
    Canada,
    China,
    Portugal,
    Singapore,
    Indonesia,
    Usa,
    NewZealand,
    Australia,
    SanMarino,
    Uae,
    Luxembourg,
    Kuwait,
    HongKong,
    Colombia,
    Japan,
    Andorra,
    Azerbaijan,
    Bulgaria,
    Cuba,
    CzechRepublic,
    Estonia,
    Georgia,
    India,
    Israel,
    Jamaica,
    Latvia,
    Lithuania,
    Macau,
    Malaysia,
    Nepal,
    NewCaledonia,
    Nigeria,
    NorthernIreland,
    PapuaNewGuinea,
    Philippines,
    Qatar,
    Romania,
    Scotland,
    Serbia,
    Slovenia,
    Taiwan,
    Ukraine,
    Venezuela,
    Wales,
}

impl Nationality {
    /// The table of nationalities: what each code stands for.
    pub open spec fn of_code(value: u16) -> Result<Nationality, DecodeError> {
        match value {
            0 => Ok(Nationality::Any),
            1 => Ok(Nationality::Italy),
            2 => Ok(Nationality::Germany),
            3 => Ok(Nationality::France),
            4 => Ok(Nationality::Spain),
            5 => Ok(Nationality::GreatBritain),
            6 => Ok(Nationality::Hungary),
            7 => Ok(Nationality::Belgium),
            8 => Ok(Nationality::Switzerland),
            9 => Ok(Nationality::Austria),
            10 => Ok(Nationality::Russia),
            11 => Ok(Nationality::Thailand),
            12 => Ok(Nationality::Netherlands),
            13 => Ok(Nationality::Poland),
            14 => Ok(Nationality::Argentina),
            15 => Ok(Nationality::Monaco),
            16 => Ok(Nationality::Ireland),
            17 => Ok(Nationality::Brazil),
            18 => Ok(Nationality::SouthAfrica),
            19 => Ok(Nationality::PuertoRico),
            20 => Ok(Nationality::Slovakia),
            21 => Ok(Nationality::Oman),
            22 => Ok(Nationality::Greece),
            23 => Ok(Nationality::SaudiArabia),
            24 => Ok(Nationality::Norway),
            25 => Ok(Nationality::Turkey),
            26 => Ok(Nationality::SouthKorea),
            27 => Ok(Nationality::Lebanon),
            28 => Ok(Nationality::Armenia),
            29 => Ok(Nationality::Mexico),
            30 => Ok(Nationality::Sweden),
            31 => Ok(Nationality::Finland),
            32 => Ok(Nationality::Denmark),
            33 => Ok(Nationality::Croatia),
            34 => Ok(Nationality::Canada),
            35 => Ok(Nationality::China),
            36 => Ok(Nationality::Portugal),
            37 => Ok(Nationality::Singapore),
            38 => Ok(Nationality::Indonesia),
            39 => Ok(Nationality::Usa),
            40 => Ok(Nationality::NewZealand),
            41 => Ok(Nationality::Australia),
            42 => Ok(Nationality::SanMarino),
            43 => Ok(Nationality::Uae),
            44 => Ok(Nationality::Luxembourg),
            45 => Ok(Nationality::Kuwait),
            46 => Ok(Nationality::HongKong),
            47 => Ok(Nationality::Colombia),
            48 => Ok(Nationality::Japan),
            49 => Ok(Nationality::Andorra),
            50 => Ok(Nationality::Azerbaijan),
            51 => Ok(Nationality::Bulgaria),
            52 => Ok(Nationality::Cuba),
            53 => Ok(Nationality::CzechRepublic),
            54 => Ok(Nationality::Estonia),
            55 => Ok(Nationality::Georgia),
            56 => Ok(Nationality::India),
            57 => Ok(Nationality::Israel),
            58 => Ok(Nationality::Jamaica),
            59 => Ok(Nationality::Latvia),
            60 => Ok(Nationality::Lithuania),
            61 => Ok(Nationality::Macau),
            62 => Ok(Nationality::Malaysia),
            63 => Ok(Nationality::Nepal),
            64 => Ok(Nationality::NewCaledonia),
            65 => Ok(Nationality::Nigeria),
            66 => Ok(Nationality::NorthernIreland),
            67 => Ok(Nationality::PapuaNewGuinea),
            68 => Ok(Nationality::Philippines),
            69 => Ok(Nationality::Qatar),
            70 => Ok(Nationality::Romania),
            71 => Ok(Nationality::Scotland),
            72 => Ok(Nationality::Serbia),
            73 => Ok(Nationality::Slovenia),
            74 => Ok(Nationality::Taiwan),
            75 => Ok(Nationality::Ukraine),
            76 => Ok(Nationality::Venezuela),
            77 => Ok(Nationality::Wales),
            x => Err(DecodeError::UnknownNationality(x)),
        }
    }

    /// The codes that the table lists.
    pub open spec fn is_code(value: u16) -> bool {
        value <= 77
    }
}

impl TryFrom<u16> for Nationality {
    type Error = DecodeError;

    /// Looks a code up in the table. A code that the table lacks comes back
    /// unchanged inside the error.
    fn try_from(value: u16) -> (r: Result<Self, Self::Error>)
        ensures
            r == Nationality::of_code(value),
            r is Ok <==> Nationality::is_code(value),
            r is Err ==> r == Err::<Nationality, DecodeError>(
                DecodeError::UnknownNationality(value),
            ),
    {
        match value {
            0 => Ok(Nationality::Any),
            1 => Ok(Nationality::Italy),
            2 => Ok(Nationality::Germany),
            3 => Ok(Nationality::France),
            4 => Ok(Nationality::Spain),
            5 => Ok(Nationality::GreatBritain),
            6 => Ok(Nationality::Hungary),
            7 => Ok(Nationality::Belgium),
            8 => Ok(Nationality::Switzerland),
            9 => Ok(Nationality::Austria),
            10 => Ok(Nationality::Russia),
            11 => Ok(Nationality::Thailand),
            12 => Ok(Nationality::Netherlands),
            13 => Ok(Nationality::Poland),
            14 => Ok(Nationality::Argentina),
            15 => Ok(Nationality::Monaco),
            16 => Ok(Nationality::Ireland),
            17 => Ok(Nationality::Brazil),
            18 => Ok(Nationality::SouthAfrica),
            19 => Ok(Nationality::PuertoRico),
            20 => Ok(Nationality::Slovakia),
            21 => Ok(Nationality::Oman),
            22 => Ok(Nationality::Greece),
            23 => Ok(Nationality::SaudiArabia),
            24 => Ok(Nationality::Norway),
            25 => Ok(Nationality::Turkey),
            26 => Ok(Nationality::SouthKorea),
            27 => Ok(Nationality::Lebanon),
            28 => Ok(Nationality::Armenia),
            29 => Ok(Nationality::Mexico),
            30 => Ok(Nationality::Sweden),
            31 => Ok(Nationality::Finland),
            32 => Ok(Nationality::Denmark),
            33 => Ok(Nationality::Croatia),
            34 => Ok(Nationality::Canada),
            35 => Ok(Nationality::China),
            36 => Ok(Nationality::Portugal),
            37 => Ok(Nationality::Singapore),
            38 => Ok(Nationality::Indonesia),
            39 => Ok(Nationality::Usa),
            40 => Ok(Nationality::NewZealand),
            41 => Ok(Nationality::Australia),
            42 => Ok(Nationality::SanMarino),
            43 => Ok(Nationality::Uae),
            44 => Ok(Nationality::Luxembourg),
            45 => Ok(Nationality::Kuwait),
            46 => Ok(Nationality::HongKong),
            47 => Ok(Nationality::Colombia),
            48 => Ok(Nationality::Japan),
            49 => Ok(Nationality::Andorra),
            50 => Ok(Nationality::Azerbaijan),
            51 => Ok(Nationality::Bulgaria),
            52 => Ok(Nationality::Cuba),
            53 => Ok(Nationality::CzechRepublic),
            54 => Ok(Nationality::Estonia),
            55 => Ok(Nationality::Georgia),
            56 => Ok(Nationality::India),
            57 => Ok(Nationality::Israel),
            58 => Ok(Nationality::Jamaica),
            59 => Ok(Nationality::Latvia),
            60 => Ok(Nationality::Lithuania),
            61 => Ok(Nationality::Macau),
            62 => Ok(Nationality::Malaysia),
            63 => Ok(Nationality::Nepal),
            64 => Ok(Nationality::NewCaledonia),
            65 => Ok(Nationality::Nigeria),
            66 => Ok(Nationality::NorthernIreland),
            67 => Ok(Nationality::PapuaNewGuinea),
            68 => Ok(Nationality::Philippines),
            69 => Ok(Nationality::Qatar),
            70 => Ok(Nationality::Romania),
            71 => Ok(Nationality::Scotland),
            72 => Ok(Nationality::Serbia),
            73 => Ok(Nationality::Slovenia),
            74 => Ok(Nationality::Taiwan),
            75 => Ok(Nationality::Ukraine),
            76 => Ok(Nationality::Venezuela),
            77 => Ok(Nationality::Wales),
            x => Err(DecodeError::UnknownNationality(x)),
        }
    }
}

impl TryFromSpecImpl<u16> for Nationality {
    open spec fn obeys_try_from_spec() -> bool {
        true
    }

    open spec fn try_from_spec(value: u16) -> Result<Self, Self::Error> {
        Nationality::of_code(value)
    }
}

/// The model of a car: GT3 cars have the codes 0 to 25, GT4 cars the codes from 50.
#[allow(non_camel_case_types)]
#[derive(Debug, Clone, Copy, PartialEq, Eq)]
pub enum CarModel {
    Porsche911,
    MercedesAMG,
    Ferrari488,
    AudiR8LMS,
    LamborghiniHuracan,
    McLaren650S,
    NissanGTR2018,
    BMWM6,
    BentleyContinental2018,
    Porsche911Cup,
    NissanGTR2017,
    BentleyContinental2016,
    AstonMartinVantageV12,
    LamborghiniGallardo,
    JaguarG3,
    LexusRCF,
    LamborghiniHuracanEvo,
    HondaNSX,
    LamborghiniSuperTrofeo,
    AudiR8LMSEvo,
    AstonMartinVantageV8,
    HondaNSXEvo,
    McLaren720S,
    Porsche911_2,
    Ferrari488Evo,
    MercedesAMGEvo,
    AlpineA1110,
    AstonMartinVantageGT4,
    AudiR8LMSGT4,
    BMWM4GT4,
    ChevroletCamaroGT4,
    GinettaG55GT4,
    KTMXBowGT4,
    MaseratiMCGT4,
    McLaren570SGT4,
    MercedesAMGGT4,
    Porsche718GT4,
}

impl CarModel {
    /// The table of car models: what each code stands for.
    pub open spec fn of_code(value: u8) -> Result<CarModel, DecodeError> {
        match value {
            0 => Ok(CarModel::Porsche911),
            1 => Ok(CarModel::MercedesAMG),
            2 => Ok(CarModel::Ferrari488),
            3 => Ok(CarModel::AudiR8LMS),
            4 => Ok(CarModel::LamborghiniHuracan),
            5 => Ok(CarModel::McLaren650S),
            6 => Ok(CarModel::NissanGTR2018),
            7 => Ok(CarModel::BMWM6),
            8 => Ok(CarModel::BentleyContinental2018),
            9 => Ok(CarModel::Porsche911Cup),
            10 => Ok(CarModel::NissanGTR2017),
            11 => Ok(CarModel::BentleyContinental2016),
            12 => Ok(CarModel::AstonMartinVantageV12),
            13 => Ok(CarModel::LamborghiniGallardo),
            14 => Ok(CarModel::JaguarG3),
            15 => Ok(CarModel::LexusRCF),
            16 => Ok(CarModel::LamborghiniHuracanEvo),
            17 => Ok(CarModel::HondaNSX),
            18 => Ok(CarModel::LamborghiniSuperTrofeo),
            19 => Ok(CarModel::AudiR8LMSEvo),
            20 => Ok(CarModel::AstonMartinVantageV8),
            21 => Ok(CarModel::HondaNSXEvo),
            22 => Ok(CarModel::McLaren720S),
            23 => Ok(CarModel::Porsche911_2),
            24 => Ok(CarModel::Ferrari488Evo),
            25 => Ok(CarModel::MercedesAMGEvo),
            50 => Ok(CarModel::AlpineA1110),
            51 => Ok(CarModel::AstonMartinVantageGT4),
            52 => Ok(CarModel::AudiR8LMSGT4),
            53 => Ok(CarModel::BMWM4GT4),
            55 => Ok(CarModel::ChevroletCamaroGT4),
            56 => Ok(CarModel::GinettaG55GT4),
            57 => Ok(CarModel::KTMXBowGT4),
            58 => Ok(CarModel::MaseratiMCGT4),
            59 => Ok(CarModel::McLaren570SGT4),
            60 => Ok(CarModel::MercedesAMGGT4),
            61 => Ok(CarModel::Porsche718GT4),
            x => Err(DecodeError::UnknownCarModel(x)),
        }
    }

    /// The codes that the table lists.
    pub open spec fn is_code(value: u8) -> bool {
        value <= 25 || 50 <= value <= 53 || 55 <= value <= 61
    }

    /// The name under which a model is shown.
    pub open spec fn spec_display_name(self) -> Seq<char> {
        match self {
            CarModel::Porsche911 => "Porsche 911 GT3"@,
            CarModel::MercedesAMG => "Mercedes AMG GT3"@,
            CarModel::Ferrari488 => "Ferrari 488 GT3"@,
            CarModel::AudiR8LMS => "Audi R8 LMS"@,
            CarModel::LamborghiniHuracan => "Lamborghini Huracan GT3"@,
            CarModel::McLaren650S => "McLaren 650s GT3"@,
            CarModel::NissanGTR2018 => "Nissan GT R Nismo GT3 2018"@,
            CarModel::BMWM6 => "BMW M6 GT3"@,
            CarModel::BentleyContinental2018 => "Bentley Continental GT3 2018"@,
            CarModel::Porsche911Cup => "Porsche 991.2 GT3 Cup"@,
            CarModel::NissanGTR2017 => "Nissan GT-R Nismo GT3 2017"@,
            CarModel::BentleyContinental2016 => "Bentley Continental GT3 2016"@,
            CarModel::AstonMartinVantageV12 => "Aston Martin Vantage V12 GT3"@,
            CarModel::LamborghiniGallardo => "Lamborghini Gallardo R-EX"@,
            CarModel::JaguarG3 => "Jaguar G3"@,
            CarModel::LexusRCF => "Lexus RC F GT3"@,
            CarModel::LamborghiniHuracanEvo => "Lamborghini Huracan Evo (2019)"@,
            CarModel::HondaNSX => "Honda NSX GT3"@,
            CarModel::LamborghiniSuperTrofeo => "Lamborghini Huracan SuperTrofeo"@,
            CarModel::AudiR8LMSEvo => "Audi R8 LMS Evo (2019)"@,
            CarModel::AstonMartinVantageV8 => "AMR V8 Vantage (2019)"@,
            CarModel::HondaNSXEvo => "Honda NSX Evo (2019)"@,
            CarModel::McLaren720S => "McLaren 720S GT3 (2019)"@,
            CarModel::Porsche911_2 => "Porsche 911 II GT3 R (2019)"@,
            CarModel::Ferrari488Evo => "Ferrari 488 GT3 Evo 2020"@,
            CarModel::MercedesAMGEvo => "Mercedes-AMG GT3 Evo 2020"@,
            CarModel::AlpineA1110 => "Alpine A1110 GT4"@,
            CarModel::AstonMartinVantageGT4 => "Aston Martin Vantage GT4"@,
            CarModel::AudiR8LMSGT4 => "Audi R8 LMS GT4"@,
            CarModel::BMWM4GT4 => "BMW M4 GT4"@,
            CarModel::ChevroletCamaroGT4 => "Chevrolet Camaro GT4"@,
            CarModel::GinettaG55GT4 => "Ginetta G55 GT4"@,
            CarModel::KTMXBowGT4 => "KTM X-Bow GT4"@,
            CarModel::MaseratiMCGT4 => "Maserati MC GT4"@,
            CarModel::McLaren570SGT4 => "McLaren 570S GT4"@,
            CarModel::MercedesAMGGT4 => "Mercedes AMG GT4"@,
            CarModel::Porsche718GT4 => "Porsche 718 Cayman GT4"@,
        }
    }

    /// The name under which a model is shown. It has nothing to do with the
    /// model's code.
    pub fn display_name(&self) -> (name: &'static str)
        ensures
            name@ == self.spec_display_name(),
    {
        match self {
            CarModel::Porsche911 => "Porsche 911 GT3",
            CarModel::MercedesAMG => "Mercedes AMG GT3",
            CarModel::Ferrari488 => "Ferrari 488 GT3",
            CarModel::AudiR8LMS => "Audi R8 LMS",
            CarModel::LamborghiniHuracan => "Lamborghini Huracan GT3",
            CarModel::McLaren650S => "McLaren 650s GT3",
            CarModel::NissanGTR2018 => "Nissan GT R Nismo GT3 2018",
            CarModel::BMWM6 => "BMW M6 GT3",
            CarModel::BentleyContinental2018 => "Bentley Continental GT3 2018",
            CarModel::Porsche911Cup => "Porsche 991.2 GT3 Cup",
            CarModel::NissanGTR2017 => "Nissan GT-R Nismo GT3 2017",
            CarModel::BentleyContinental2016 => "Bentley Continental GT3 2016",
            CarModel::AstonMartinVantageV12 => "Aston Martin Vantage V12 GT3",
            CarModel::LamborghiniGallardo => "Lamborghini Gallardo R-EX",
            CarModel::JaguarG3 => "Jaguar G3",
            CarModel::LexusRCF => "Lexus RC F GT3",
            CarModel::LamborghiniHuracanEvo => "Lamborghini Huracan Evo (2019)",
            CarModel::HondaNSX => "Honda NSX GT3",
            CarModel::LamborghiniSuperTrofeo => "Lamborghini Huracan SuperTrofeo",
            CarModel::AudiR8LMSEvo => "Audi R8 LMS Evo (2019)",
            CarModel::AstonMartinVantageV8 => "AMR V8 Vantage (2019)",
            CarModel::HondaNSXEvo => "Honda NSX Evo (2019)",
            CarModel::McLaren720S => "McLaren 720S GT3 (2019)",
            CarModel::Porsche911_2 => "Porsche 911 II GT3 R (2019)",
            CarModel::Ferrari488Evo => "Ferrari 488 GT3 Evo 2020",
            CarModel::MercedesAMGEvo => "Mercedes-AMG GT3 Evo 2020",
            CarModel::AlpineA1110 => "Alpine A1110 GT4",
            CarModel::AstonMartinVantageGT4 => "Aston Martin Vantage GT4",
            CarModel::AudiR8LMSGT4 => "Audi R8 LMS GT4",
            CarModel::BMWM4GT4 => "BMW M4 GT4",
            CarModel::ChevroletCamaroGT4 => "Chevrolet Camaro GT4",
            CarModel::GinettaG55GT4 => "Ginetta G55 GT4",
            CarModel::KTMXBowGT4 => "KTM X-Bow GT4",
            CarModel::MaseratiMCGT4 => "Maserati MC GT4",
            CarModel::McLaren570SGT4 => "McLaren 570S GT4",
            CarModel::MercedesAMGGT4 => "Mercedes AMG GT4",
            CarModel::Porsche718GT4 => "Porsche 718 Cayman GT4",
        }
    }

    /// The display name as an owned string.
    pub fn to_string(&self) -> (name: String)
        ensures
            name@ == self.spec_display_name(),
    {
        self.display_name().to_owned()
    }
}

impl TryFrom<u8> for CarModel {
    type Error = DecodeError;

    /// Looks a code up in the table. A code that the table lacks comes back
    /// unchanged inside the error.
    fn try_from(value: u8) -> (r: Result<Self, Self::Error>)
        ensures
            r == CarModel::of_code(value),
            r is Ok <==> CarModel::is_code(value),
            r is Err ==> r == Err::<CarModel, DecodeError>(
                DecodeError::UnknownCarModel(value),
            ),
    {
        match value {
            0 => Ok(CarModel::Porsche911),
            1 => Ok(CarModel::MercedesAMG),
            2 => Ok(CarModel::Ferrari488),
            3 => Ok(CarModel::AudiR8LMS),
            4 => Ok(CarModel::LamborghiniHuracan),
            5 => Ok(CarModel::McLaren650S),
            6 => Ok(CarModel::NissanGTR2018),
            7 => Ok(CarModel::BMWM6),
            8 => Ok(CarModel::BentleyContinental2018),
            9 => Ok(CarModel::Porsche911Cup),
            10 => Ok(CarModel::NissanGTR2017),
            11 => Ok(CarModel::BentleyContinental2016),
            12 => Ok(CarModel::AstonMartinVantageV12),
            13 => Ok(CarModel::LamborghiniGallardo),
            14 => Ok(CarModel::JaguarG3),
            15 => Ok(CarModel::LexusRCF),
            16 => Ok(CarModel::LamborghiniHuracanEvo),
            17 => Ok(CarModel::HondaNSX),
            18 => Ok(CarModel::LamborghiniSuperTrofeo),
            19 => Ok(CarModel::AudiR8LMSEvo),
            20 => Ok(CarModel::AstonMartinVantageV8),
            21 => Ok(CarModel::HondaNSXEvo),
            22 => Ok(CarModel::McLaren720S),
            23 => Ok(CarModel::Porsche911_2),
            24 => Ok(CarModel::Ferrari488Evo),
            25 => Ok(CarModel::MercedesAMGEvo),
            50 => Ok(CarModel::AlpineA1110),
            51 => Ok(CarModel::AstonMartinVantageGT4),
            52 => Ok(CarModel::AudiR8LMSGT4),
            53 => Ok(CarModel::BMWM4GT4),
            55 => Ok(CarModel::ChevroletCamaroGT4),
            56 => Ok(CarModel::GinettaG55GT4),
            57 => Ok(CarModel::KTMXBowGT4),
            58 => Ok(CarModel::MaseratiMCGT4),
            59 => Ok(CarModel::McLaren570SGT4),
            60 => Ok(CarModel::MercedesAMGGT4),
            61 => Ok(CarModel::Porsche718GT4),
            x => Err(DecodeError::UnknownCarModel(x)),
        }
    }
}

impl TryFromSpecImpl<u8> for CarModel {
    open spec fn obeys_try_from_spec() -> bool {
        true
    }

    open spec fn try_from_spec(value: u8) -> Result<Self, Self::Error> {
        CarModel::of_code(value)
    }
}

/// The licence grade of a driver.
#[derive(Debug, Clone, Copy, PartialEq, Eq)]
pub enum DriverCategory {
    Platinum,
    Gold,
    Silver,
    Bronze,
}

impl DriverCategory {
    /// The table of driver categories: what each code stands for.
    pub open spec fn of_code(value: u8) -> Result<DriverCategory, DecodeError> {
        match value {
            3 => Ok(DriverCategory::Platinum),
            2 => Ok(DriverCategory::Gold),
            1 => Ok(DriverCategory::Silver),
            0 => Ok(DriverCategory::Bronze),
            x => Err(DecodeError::UnknownDriverCategory(x)),
        }
    }

    /// The codes that the table lists.
    pub open spec fn is_code(value: u8) -> bool {
        value <= 3
    }
}

impl TryFrom<u8> for DriverCategory {
    type Error = DecodeError;

    /// Looks a code up in the table. A code that the table lacks comes back
    /// unchanged inside the error.
    fn try_from(value: u8) -> (r: Result<Self, Self::Error>)
        ensures
            r == DriverCategory::of_code(value),
            r is Ok <==> DriverCategory::is_code(value),
            r is Err ==> r == Err::<DriverCategory, DecodeError>(
                DecodeError::UnknownDriverCategory(value),
            ),
    {
        match value {
            3 => Ok(DriverCategory::Platinum),
            2 => Ok(DriverCategory::Gold),
            1 => Ok(DriverCategory::Silver),
            0 => Ok(DriverCategory::Bronze),
            x => Err(DecodeError::UnknownDriverCategory(x)),
        }
    }
}

impl TryFromSpecImpl<u8> for DriverCategory {
    open spec fn obeys_try_from_spec() -> bool {
        true
    }

    open spec fn try_from_spec(value: u8) -> Result<Self, Self::Error> {
        DriverCategory::of_code(value)
    }
}

/// The cup that a car is entered in.
#[derive(Debug, Clone, Copy, PartialEq, Eq)]
pub enum CupCategory {
    Overall,
    ProAm,
    Am,
    Silver,
    National,
}

impl CupCategory {
    /// The table of cup categories: what each code stands for.
    pub open spec fn of_code(value: u8) -> Result<CupCategory, DecodeError> {
        match value {
            0 => Ok(CupCategory::Overall),
            1 => Ok(CupCategory::ProAm),
            2 => Ok(CupCategory::Am),
            3 => Ok(CupCategory::Silver),
            4 => Ok(CupCategory::National),
            x => Err(DecodeError::UnknownCupCategory(x)),
        }
    }

    /// The codes that the table lists.
    pub open spec fn is_code(value: u8) -> bool {
        value <= 4
    }
}

impl TryFrom<u8> for CupCategory {
    type Error = DecodeError;

    /// Looks a code up in the table. A code that the table lacks comes back
    /// unchanged inside the error.
    fn try_from(value: u8) -> (r: Result<Self, Self::Error>)
        ensures
            r == CupCategory::of_code(value),
            r is Ok <==> CupCategory::is_code(value),
            r is Err ==> r == Err::<CupCategory, DecodeError>(
                DecodeError::UnknownCupCategory(value),
            ),
    {
        match value {
            0 => Ok(CupCategory::Overall),
            1 => Ok(CupCategory::ProAm),
            2 => Ok(CupCategory::Am),
            3 => Ok(CupCategory::Silver),
            4 => Ok(CupCategory::National),
            x => Err(DecodeError::UnknownCupCategory(x)),
        }
    }
}

impl TryFromSpecImpl<u8> for CupCategory {
    open spec fn obeys_try_from_spec() -> bool {
        true
    }

    open spec fn try_from_spec(value: u8) -> Result<Self, Self::Error> {
        CupCategory::of_code(value)
    }
}

/// What a broadcasting event reports.
#[derive(Debug, Clone, Copy, PartialEq, Eq)]
pub enum BroadcastingEventType {
    NoEvent,
    GreenFlag,
    SessionOver,
    PenaltyMessage,
    Accident,
    LapCompleted,
    BestSessionLap,
    BestPersonalLap,
}

impl BroadcastingEventType {
    /// The table of broadcasting events: what each code stands for.
    pub open spec fn of_code(value: u8) -> Result<BroadcastingEventType, DecodeError> {
        match value {
            0 => Ok(BroadcastingEventType::NoEvent),
            1 => Ok(BroadcastingEventType::GreenFlag),
            2 => Ok(BroadcastingEventType::SessionOver),
            3 => Ok(BroadcastingEventType::PenaltyMessage),
            4 => Ok(BroadcastingEventType::Accident),
            5 => Ok(BroadcastingEventType::LapCompleted),
            6 => Ok(BroadcastingEventType::BestSessionLap),
            7 => Ok(BroadcastingEventType::BestPersonalLap),
            x => Err(DecodeError::UnknownBroadcastingEvent(x)),
        }
    }

    /// The codes that the table lists.
    pub open spec fn is_code(value: u8) -> bool {
        value <= 7
    }
}

impl TryFrom<u8> for BroadcastingEventType {
    type Error = DecodeError;

    /// Looks a code up in the table. A code that the table lacks comes back
    /// unchanged inside the error.
    fn try_from(value: u8) -> (r: Result<Self, Self::Error>)
        ensures
            r == BroadcastingEventType::of_code(value),
            r is Ok <==> BroadcastingEventType::is_code(value),
            r is Err ==> r == Err::<BroadcastingEventType, DecodeError>(
                DecodeError::UnknownBroadcastingEvent(value),
            ),
    {
        match value {
            0 => Ok(BroadcastingEventType::NoEvent),
            1 => Ok(BroadcastingEventType::GreenFlag),
            2 => Ok(BroadcastingEventType::SessionOver),
            3 => Ok(BroadcastingEventType::PenaltyMessage),
            4 => Ok(BroadcastingEventType::Accident),
            5 => Ok(BroadcastingEventType::LapCompleted),
            6 => Ok(BroadcastingEventType::BestSessionLap),
            7 => Ok(BroadcastingEventType::BestPersonalLap),
            x => Err(DecodeError::UnknownBroadcastingEvent(x)),
        }
    }
}

impl TryFromSpecImpl<u8> for BroadcastingEventType {
    open spec fn obeys_try_from_spec() -> bool {
        true
    }

    open spec fn try_from_spec(value: u8) -> Result<Self, Self::Error> {
        BroadcastingEventType::of_code(value)
    }
}

} // verus!
