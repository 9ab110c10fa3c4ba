//! The phrases of the game log in each client language, and the table of
//! all of them.
use vstd::prelude::*;

use crate::text::str_eq;

verus! {

/// The fixed phrases by which a game log of one client language is read.
#[derive(Debug)]
pub struct LogLanguage {
    pub(crate) language: &'static str,
    pub(crate) character: &'static str,
    pub(crate) session_time: &'static str,
    pub(crate) damage_out: &'static str,
    pub(crate) damage_in: &'static str,
    pub(crate) armor_repaired_out: &'static str,
    pub(crate) hull_repaired_out: &'static str,
    pub(crate) shield_boosted_out: &'static str,
    pub(crate) armor_repaired_in: &'static str,
    pub(crate) hull_repaired_in: &'static str,
    pub(crate) shield_boosted_in: &'static str,
    pub(crate) cap_transfered_out: &'static str,
    pub(crate) cap_neutralized_out: &'static str,
    pub(crate) nos_recieved: &'static str,
    pub(crate) cap_transfered_in: &'static str,
    pub(crate) cap_neutralized_in: &'static str,
    pub(crate) nos_taken: &'static str,
    pub(crate) mined: &'static str,
}

/// What a line of the log body reports, as far as it is told apart.
#[derive(Clone, Copy, Debug, PartialEq, Eq, Structural)]
pub enum LineKind {
    /// A combat line of five fields: damage taken from a non-player.
    DamageInPve,
    /// A combat line of five fields: capacitor neutralized on us.
    CapNeutIn,
    /// A combat line of five fields of another kind.
    UnsupportedFive,
    /// A combat line of six fields: a module used on us (`from ... to`).
    ModuleUse,
    /// A combat line of six fields: damage dealt.
    DamageOut,
    /// A combat line of six fields: damage taken from a player.
    DamageInPvp,
    /// A combat line of six fields of another kind.
    UnsupportedSix,
    /// A combat line of eight fields: `armor_repaired_out`.
    ArmorRepairedOut,
    /// A combat line of eight fields: `hull_repaired_out`.
    HullRepairedOut,
    /// A combat line of eight fields: `shield_boosted_out`.
    ShieldBoostedOut,
    /// A combat line of eight fields: `armor_repaired_in`.
    ArmorRepairedIn,
    /// A combat line of eight fields: `hull_repaired_in`.
    HullRepairedIn,
    /// A combat line of eight fields: `shield_boosted_in`.
    ShieldBoostedIn,
    /// A combat line of eight fields: `cap_transfered_out`.
    CapTransferedOut,
    /// A combat line of eight fields: `cap_neutralized_out`.
    CapNeutralizedOut,
    /// A combat line of eight fields: `nos_recieved`.
    NosRecieved,
    /// A combat line of eight fields: `cap_transfered_in`.
    CapTransferedIn,
    /// A combat line of eight fields: `cap_neutralized_in`.
    CapNeutralizedIn,
    /// A combat line of eight fields: `nos_taken`.
    NosTaken,
    /// A combat line of eight fields of another kind.
    UnsupportedEight,
    /// A line that is not reported: not a combat line, or a combat line with
    /// another number of fields.
    Ignored,
}

/// The phrases of a [`LogLanguage`] as character sequences.
pub ghost struct LanguageView {
    pub language: Seq<char>,
    pub character: Seq<char>,
    pub session_time: Seq<char>,
    pub damage_out: Seq<char>,
    pub damage_in: Seq<char>,
    pub armor_repaired_out: Seq<char>,
    pub hull_repaired_out: Seq<char>,
    pub shield_boosted_out: Seq<char>,
    pub armor_repaired_in: Seq<char>,
    pub hull_repaired_in: Seq<char>,
    pub shield_boosted_in: Seq<char>,
    pub cap_transfered_out: Seq<char>,
    pub cap_neutralized_out: Seq<char>,
    pub nos_recieved: Seq<char>,
    pub cap_transfered_in: Seq<char>,
    pub cap_neutralized_in: Seq<char>,
    pub nos_taken: Seq<char>,
    pub mined: Seq<char>,
}

impl View for LogLanguage {
    type V = LanguageView;

    closed spec fn view(&self) -> LanguageView {
        LanguageView {
            language: self.language@,
            character: self.character@,
            session_time: self.session_time@,
            damage_out: self.damage_out@,
            damage_in: self.damage_in@,
            armor_repaired_out: self.armor_repaired_out@,
            hull_repaired_out: self.hull_repaired_out@,
            shield_boosted_out: self.shield_boosted_out@,
            armor_repaired_in: self.armor_repaired_in@,
            hull_repaired_in: self.hull_repaired_in@,
            shield_boosted_in: self.shield_boosted_in@,
            cap_transfered_out: self.cap_transfered_out@,
            cap_neutralized_out: self.cap_neutralized_out@,
            nos_recieved: self.nos_recieved@,
            cap_transfered_in: self.cap_transfered_in@,
            cap_neutralized_in: self.cap_neutralized_in@,
            nos_taken: self.nos_taken@,
            mined: self.mined@,
        }
    }
}

impl LogLanguage {
    /// Gathers the phrases of one language.
    pub fn new(
        language: &'static str,
        character: &'static str,
        session_time: &'static str,
        damage_out: &'static str,
        damage_in: &'static str,
        armor_repaired_out: &'static str,
        hull_repaired_out: &'static str,
        shield_boosted_out: &'static str,
        armor_repaired_in: &'static str,
        hull_repaired_in: &'static str,
        shield_boosted_in: &'static str,
        cap_transfered_out: &'static str,
        cap_neutralized_out: &'static str,
        nos_recieved: &'static str,
        cap_transfered_in: &'static str,
        cap_neutralized_in: &'static str,
        nos_taken: &'static str,
        mined: &'static str,
    ) -> (res: Self)
        ensures
            res@ == (LanguageView {
                language: language@,
                character: character@,
                session_time: session_time@,
                damage_out: damage_out@,
                damage_in: damage_in@,
                armor_repaired_out: armor_repaired_out@,
                hull_repaired_out: hull_repaired_out@,
                shield_boosted_out: shield_boosted_out@,
                armor_repaired_in: armor_repaired_in@,
                hull_repaired_in: hull_repaired_in@,
                shield_boosted_in: shield_boosted_in@,
                cap_transfered_out: cap_transfered_out@,
                cap_neutralized_out: cap_neutralized_out@,
                nos_recieved: nos_recieved@,
                cap_transfered_in: cap_transfered_in@,
                cap_neutralized_in: cap_neutralized_in@,
                nos_taken: nos_taken@,
                mined: mined@,
            }),
    {
        Self {
            language,
            character,
            session_time,
            damage_out,
            damage_in,
            armor_repaired_out,
            hull_repaired_out,
            shield_boosted_out,
            armor_repaired_in,
            hull_repaired_in,
            shield_boosted_in,
            cap_transfered_out,
            cap_neutralized_out,
            nos_recieved,
            cap_transfered_in,
            cap_neutralized_in,
            nos_taken,
            mined,
        }
    }

    /// The name of the language (`"english"`, ...).
    pub fn name(&self) -> (res: &'static str)
        ensures
            res@ == self@.language,
    {
        self.language
    }

    /// Tells a combat line apart by its fields `parts` (the line split at
    /// the field separator) and the phrases of this language.
    pub fn combat_kind(&self, parts: &Vec<&str>) -> (res: LineKind)
        ensures
            res == combat_kind_spec(self@, parts@.map_values(|p: &str| p@)),
    {
        let n = parts.len();
        if n == 5 {
            if str_eq(parts[2], self.damage_in) {
                LineKind::DamageInPve
            } else if str_eq(parts[2], self.cap_neutralized_in) {
                LineKind::CapNeutIn
            } else {
                LineKind::UnsupportedFive
            }
        } else if n == 6 {
            if str_eq(parts[2], self.damage_in) && str_eq(parts[4], self.damage_out) {
                LineKind::ModuleUse
            } else if str_eq(parts[2], self.damage_out) {
                LineKind::DamageOut
            } else if str_eq(parts[2], self.damage_in) {
                LineKind::DamageInPvp
            } else {
                LineKind::UnsupportedSix
            }
        } else if n == 8 {
            if str_eq(parts[2], self.armor_repaired_out) {
                LineKind::ArmorRepairedOut
            } else if str_eq(parts[2], self.hull_repaired_out) {
                LineKind::HullRepairedOut
            } else if str_eq(parts[2], self.shield_boosted_out) {
                LineKind::ShieldBoostedOut
            } else if str_eq(parts[2], self.armor_repaired_in) {
                LineKind::ArmorRepairedIn
            } else if str_eq(parts[2], self.hull_repaired_in) {
                LineKind::HullRepairedIn
            } else if str_eq(parts[2], self.shield_boosted_in) {
                LineKind::ShieldBoostedIn
            } else if str_eq(parts[2], self.cap_transfered_out) {
                LineKind::CapTransferedOut
            } else if str_eq(parts[2], self.cap_neutralized_out) {
                LineKind::CapNeutralizedOut
            } else if str_eq(parts[2], self.nos_recieved) {
                LineKind::NosRecieved
            } else if str_eq(parts[2], self.cap_transfered_in) {
                LineKind::CapTransferedIn
            } else if str_eq(parts[2], self.cap_neutralized_in) {
                LineKind::CapNeutralizedIn
            } else if str_eq(parts[2], self.nos_taken) {
                LineKind::NosTaken
            } else {
                LineKind::UnsupportedEight
            }
        } else {
            LineKind::Ignored
        }
    }

    /// The text by which the header's listener line shows this language.
    pub fn character(&self) -> (res: &'static str)
        ensures
            res@ == self@.character,
    {
        self.character
    }
}

/// The phrases of the english client.
pub open spec fn english_phrases() -> LanguageView {
    LanguageView {
        language: "english"@,
        character: "  Listener: "@,
        session_time: "  Session Started: "@,
        damage_out: "to"@,
        damage_in: "from"@,
        armor_repaired_out: "remote armor repaired to"@,
        hull_repaired_out: "remote hull repaired to"@,
        shield_boosted_out: "remote shield boosted to"@,
        armor_repaired_in: "remote armor repaired by"@,
        hull_repaired_in: "remote hull repaired by"@,
        shield_boosted_in: "remote shield boosted by"@,
        cap_transfered_out: "remote capacitor transmitted to"@,
        cap_neutralized_out: "energy neutralized"@,
        nos_recieved: "energy drained from"@,
        cap_transfered_in: "remote capacitor transmitted by"@,
        cap_neutralized_in: "energy neutralized"@,
        nos_taken: "energy drained to"@,
        mined: " (mining)"@,
    }
}

/// The phrases of the russian client.
pub open spec fn russian_phrases() -> LanguageView {
    LanguageView {
        language: "russian"@,
        character: "  Слушатель: "@,
        session_time: "  Сеанс начат: "@,
        damage_out: "на"@,
        damage_in: "из"@,
        armor_repaired_out: "единиц запаса прочности брони отремонтировано"@,
        hull_repaired_out: "единиц запаса прочности корпуса отремонтировано"@,
        shield_boosted_out: "единиц запаса прочности щитов накачано"@,
        armor_repaired_in: "единиц запаса прочности брони получено дистанционным ремонтом от"@,
        hull_repaired_in: "единиц запаса прочности корпуса получено дистанционным ремонтом от"@,
        shield_boosted_in: "единиц запаса прочности щитов получено накачкой от"@,
        cap_transfered_out: "единиц запаса энергии накопителя отправлено в"@,
        cap_neutralized_out: "энергии нейтрализовано"@,
        nos_recieved: "энергии извлечено из"@,
        cap_transfered_in: "единиц запаса энергии накопителя получено от"@,
        cap_neutralized_in: "энергии нейтрализовано"@,
        nos_taken: "энергии извлечено и передано"@,
        mined: " (mining)"@,
    }
}

/// The phrases of the french client.
pub open spec fn french_phrases() -> LanguageView {
    LanguageView {
        language: "french"@,
        character: "  Auditeur: "@,
        session_time: "  Session commencée: "@,
        damage_out: "à"@,
        damage_in: "de"@,
        armor_repaired_out: "points de blindage transférés à distance à"@,
        hull_repaired_out: "points de structure transférés à distance à"@,
        shield_boosted_out: "points de boucliers transférés à distance à"@,
        armor_repaired_in: "points de blindage réparés à distance par"@,
        hull_repaired_in: "points de structure réparés à distance par"@,
        shield_boosted_in: "points de boucliers transférés à distance par"@,
        cap_transfered_out: "points de capaciteur transférés à distance à"@,
        cap_neutralized_out: "d'énergie neutralisée en faveur de"@,
        nos_recieved: "d'énergie siphonnée aux dépens de"@,
        cap_transfered_in: "points de capaciteur transférés à distance par"@,
        cap_neutralized_in: "d'énergie neutralisée aux dépens de"@,
        nos_taken: "d'énergie siphonnée en faveur de"@,
        mined: " (mining)"@,
    }
}

/// The phrases of the german client.
pub open spec fn german_phrases() -> LanguageView {
    LanguageView {
        language: "german"@,
        character: "  Empfänger: "@,
        session_time: "  Sitzung gestartet: "@,
        damage_out: "nach"@,
        damage_in: "von"@,
        armor_repaired_out: "Panzerungs-Fernreparatur zu"@,
        hull_repaired_out: "Rumpf-Fernreparatur zu"@,
        shield_boosted_out: "Schildfernbooster aktiviert zu"@,
        armor_repaired_in: "Panzerungs-Fernreparatur von"@,
        hull_repaired_in: "Rumpf-Fernreparatur von"@,
        shield_boosted_in: "Schildfernbooster aktiviert von"@,
        cap_transfered_out: "Fernenergiespeicher übertragen zu"@,
        cap_neutralized_out: "Energie neutralisiert"@,
        nos_recieved: "Energie transferiert von"@,
        cap_transfered_in: "Fernenergiespeicher übertragen von"@,
        cap_neutralized_in: "Energie neutralisiert"@,
        nos_taken: "Energie transferiert zu"@,
        mined: " (mining)"@,
    }
}

/// The phrases of the japanese client.
pub open spec fn japanese_phrases() -> LanguageView {
    LanguageView {
        language: "japanese"@,
        character: "  傍聴者: "@,
        session_time: "  セッション開始: "@,
        damage_out: "対象:"@,
        damage_in: "攻撃者:"@,
        armor_repaired_out: "remote armor repaired to"@,
        hull_repaired_out: "remote hull repaired to"@,
        shield_boosted_out: "remote shield boosted to"@,
        armor_repaired_in: "remote armor repaired by"@,
        hull_repaired_in: "remote hull repaired by"@,
        shield_boosted_in: "remote shield boosted by"@,
        cap_transfered_out: "remote capacitor transmitted to"@,
        cap_neutralized_out: "エネルギーニュートラライズ 対象"@,
        nos_recieved: "エネルギードレイン 対象"@,
        cap_transfered_in: "remote capacitor transmitted by"@,
        cap_neutralized_in: "のエネルギーが解放されました<"@,
        nos_taken: "エネルギードレイン 攻撃者"@,
        mined: " (mining)"@,
    }
}

/// The phrases of the chinese client.
pub open spec fn chinese_phrases() -> LanguageView {
    LanguageView {
        language: "chinese"@,
        character: "  收听者: "@,
        session_time: "  进程开始: "@,
        damage_out: "对"@,
        damage_in: "来自"@,
        armor_repaired_out: "远程装甲维修量至"@,
        hull_repaired_out: "远程结构维修量至"@,
        shield_boosted_out: "远程护盾回充增量至"@,
        armor_repaired_in: "远程装甲维修量由"@,
        hull_repaired_in: "远程结构维修量由"@,
        shield_boosted_in: "远程护盾回充增量由"@,
        cap_transfered_out: "远程电容传输至"@,
        cap_neutralized_out: "能量中和"@,
        nos_recieved: "被从"@,
        cap_transfered_in: "远程电容传输量由"@,
        cap_neutralized_in: "能量中和"@,
        nos_taken: "被吸取到"@,
        mined: " (mining)"@,
    }
}

/// How a combat line split into `parts` (at the field separator) is told
/// apart, by its number of fields and the phrases of `lang`.
pub open spec fn combat_kind_spec(lang: LanguageView, parts: Seq<Seq<char>>) -> LineKind {
    if parts.len() == 5 {
        if parts[2] == lang.damage_in {
            LineKind::DamageInPve
        } else if parts[2] == lang.cap_neutralized_in {
            LineKind::CapNeutIn
        } else {
            LineKind::UnsupportedFive
        }
    } else if parts.len() == 6 {
        if parts[2] == lang.damage_in && parts[4] == lang.damage_out {
            LineKind::ModuleUse
        } else if parts[2] == lang.damage_out {
            LineKind::DamageOut
        } else if parts[2] == lang.damage_in {
            LineKind::DamageInPvp
        } else {
            LineKind::UnsupportedSix
        }
    } else if parts.len() == 8 {
        if parts[2] == lang.armor_repaired_out {
            LineKind::ArmorRepairedOut
        } else if parts[2] == lang.hull_repaired_out {
            LineKind::HullRepairedOut
        } else if parts[2] == lang.shield_boosted_out {
            LineKind::ShieldBoostedOut
        } else if parts[2] == lang.armor_repaired_in {
            LineKind::ArmorRepairedIn
        } else if parts[2] == lang.hull_repaired_in {
            LineKind::HullRepairedIn
        } else if parts[2] == lang.shield_boosted_in {
            LineKind::ShieldBoostedIn
        } else if parts[2] == lang.cap_transfered_out {
            LineKind::CapTransferedOut
        } else if parts[2] == lang.cap_neutralized_out {
            LineKind::CapNeutralizedOut
        } else if parts[2] == lang.nos_recieved {
            LineKind::NosRecieved
        } else if parts[2] == lang.cap_transfered_in {
            LineKind::CapTransferedIn
        } else if parts[2] == lang.cap_neutralized_in {
            LineKind::CapNeutralizedIn
        } else if parts[2] == lang.nos_taken {
            LineKind::NosTaken
        } else {
            LineKind::UnsupportedEight
        }
    } else {
        LineKind::Ignored
    }
}

/// The order in which the kinds of combat lines are tried: the order of
/// [`LineKind`].
pub open spec fn kind_rank(kind: LineKind) -> int {
    match kind {
        LineKind::DamageInPve => 0,
        LineKind::CapNeutIn => 1,
        LineKind::UnsupportedFive => 2,
        LineKind::ModuleUse => 3,
        LineKind::DamageOut => 4,
        LineKind::DamageInPvp => 5,
        LineKind::UnsupportedSix => 6,
        LineKind::ArmorRepairedOut => 7,
        LineKind::HullRepairedOut => 8,
        LineKind::ShieldBoostedOut => 9,
        LineKind::ArmorRepairedIn => 10,
        LineKind::HullRepairedIn => 11,
        LineKind::ShieldBoostedIn => 12,
        LineKind::CapTransferedOut => 13,
        LineKind::CapNeutralizedOut => 14,
        LineKind::NosRecieved => 15,
        LineKind::CapTransferedIn => 16,
        LineKind::CapNeutralizedIn => 17,
        LineKind::NosTaken => 18,
        LineKind::UnsupportedEight => 19,
        LineKind::Ignored => 20,
    }
}

/// What the fields `parts` of a combat line look like when the line is of
/// kind `kind` in `lang`: its number of fields, and in field 2 the phrase of
/// the same name as the kind (for a module use, also `damage_out` in field
/// 4); an unsupported line has none of the phrases of its number of fields
/// in field 2, and an ignored one has another number of fields.
pub open spec fn kind_fits(lang: LanguageView, parts: Seq<Seq<char>>, kind: LineKind) -> bool {
    let n = parts.len();
    let p = parts[2];
    match kind {
        LineKind::DamageInPve => n == 5 && p == lang.damage_in,
        LineKind::CapNeutIn => n == 5 && p == lang.cap_neutralized_in,
        LineKind::UnsupportedFive => n == 5 && p != lang.damage_in && p != lang.cap_neutralized_in,
        LineKind::ModuleUse => n == 6 && p == lang.damage_in && parts[4] == lang.damage_out,
        LineKind::DamageOut => n == 6 && p == lang.damage_out,
        LineKind::DamageInPvp => n == 6 && p == lang.damage_in && parts[4] != lang.damage_out,
        LineKind::UnsupportedSix => n == 6 && p != lang.damage_in && p != lang.damage_out,
        LineKind::ArmorRepairedOut => n == 8 && p == lang.armor_repaired_out,
        LineKind::HullRepairedOut => n == 8 && p == lang.hull_repaired_out,
        LineKind::ShieldBoostedOut => n == 8 && p == lang.shield_boosted_out,
        LineKind::ArmorRepairedIn => n == 8 && p == lang.armor_repaired_in,
        LineKind::HullRepairedIn => n == 8 && p == lang.hull_repaired_in,
        LineKind::ShieldBoostedIn => n == 8 && p == lang.shield_boosted_in,
        LineKind::CapTransferedOut => n == 8 && p == lang.cap_transfered_out,
        LineKind::CapNeutralizedOut => n == 8 && p == lang.cap_neutralized_out,
        LineKind::NosRecieved => n == 8 && p == lang.nos_recieved,
        LineKind::CapTransferedIn => n == 8 && p == lang.cap_transfered_in,
        LineKind::CapNeutralizedIn => n == 8 && p == lang.cap_neutralized_in,
        LineKind::NosTaken => n == 8 && p == lang.nos_taken,
        LineKind::UnsupportedEight => {
            &&& n == 8
            &&& p != lang.armor_repaired_out
            &&& p != lang.hull_repaired_out
            &&& p != lang.shield_boosted_out
            &&& p != lang.armor_repaired_in
            &&& p != lang.hull_repaired_in
            &&& p != lang.shield_boosted_in
            &&& p != lang.cap_transfered_out
            &&& p != lang.cap_neutralized_out
            &&& p != lang.nos_recieved
            &&& p != lang.cap_transfered_in
            &&& p != lang.cap_neutralized_in
            &&& p != lang.nos_taken
        },
        LineKind::Ignored => n != 5 && n != 6 && n != 8,
    }
}

/// A combat line is told apart as a kind that fits it: each kind of a
/// phrase is given only to a line that carries that very phrase of the
/// language in field 2, and an unsupported kind only to one that carries
/// none of the phrases of its number of fields.
pub proof fn lemma_combat_kind_fits(lang: LanguageView, parts: Seq<Seq<char>>)
    ensures
        kind_fits(lang, parts, combat_kind_spec(lang, parts)),
{
}

/// Of the kinds that fit a combat line, it is told apart as the first in
/// the order of [`LineKind`]: a kind that fits, with no kind before it that
/// fits, is the line's kind.
pub proof fn lemma_combat_kind_first_fit(lang: LanguageView, parts: Seq<Seq<char>>, kind: LineKind)
    requires
        kind_fits(lang, parts, kind),
        forall|e: LineKind| kind_rank(e) < kind_rank(kind) ==> !#[trigger] kind_fits(lang, parts, e),
    ensures
        combat_kind_spec(lang, parts) == kind,
{
    assert(kind_rank(LineKind::DamageInPve) < kind_rank(kind) ==> !kind_fits(lang, parts, LineKind::DamageInPve));
    assert(kind_rank(LineKind::CapNeutIn) < kind_rank(kind) ==> !kind_fits(lang, parts, LineKind::CapNeutIn));
    assert(kind_rank(LineKind::UnsupportedFive) < kind_rank(kind) ==> !kind_fits(lang, parts, LineKind::UnsupportedFive));
    assert(kind_rank(LineKind::ModuleUse) < kind_rank(kind) ==> !kind_fits(lang, parts, LineKind::ModuleUse));
    assert(kind_rank(LineKind::DamageOut) < kind_rank(kind) ==> !kind_fits(lang, parts, LineKind::DamageOut));
    assert(kind_rank(LineKind::DamageInPvp) < kind_rank(kind) ==> !kind_fits(lang, parts, LineKind::DamageInPvp));
    assert(kind_rank(LineKind::UnsupportedSix) < kind_rank(kind) ==> !kind_fits(lang, parts, LineKind::UnsupportedSix));
    assert(kind_rank(LineKind::ArmorRepairedOut) < kind_rank(kind) ==> !kind_fits(lang, parts, LineKind::ArmorRepairedOut));
    assert(kind_rank(LineKind::HullRepairedOut) < kind_rank(kind) ==> !kind_fits(lang, parts, LineKind::HullRepairedOut));
    assert(kind_rank(LineKind::ShieldBoostedOut) < kind_rank(kind) ==> !kind_fits(lang, parts, LineKind::ShieldBoostedOut));
    assert(kind_rank(LineKind::ArmorRepairedIn) < kind_rank(kind) ==> !kind_fits(lang, parts, LineKind::ArmorRepairedIn));
    assert(kind_rank(LineKind::HullRepairedIn) < kind_rank(kind) ==> !kind_fits(lang, parts, LineKind::HullRepairedIn));
    assert(kind_rank(LineKind::ShieldBoostedIn) < kind_rank(kind) ==> !kind_fits(lang, parts, LineKind::ShieldBoostedIn));
    assert(kind_rank(LineKind::CapTransferedOut) < kind_rank(kind) ==> !kind_fits(lang, parts, LineKind::CapTransferedOut));
    assert(kind_rank(LineKind::CapNeutralizedOut) < kind_rank(kind) ==> !kind_fits(lang, parts, LineKind::CapNeutralizedOut));
    assert(kind_rank(LineKind::NosRecieved) < kind_rank(kind) ==> !kind_fits(lang, parts, LineKind::NosRecieved));
    assert(kind_rank(LineKind::CapTransferedIn) < kind_rank(kind) ==> !kind_fits(lang, parts, LineKind::CapTransferedIn));
    assert(kind_rank(LineKind::CapNeutralizedIn) < kind_rank(kind) ==> !kind_fits(lang, parts, LineKind::CapNeutralizedIn));
    assert(kind_rank(LineKind::NosTaken) < kind_rank(kind) ==> !kind_fits(lang, parts, LineKind::NosTaken));
    assert(kind_rank(LineKind::UnsupportedEight) < kind_rank(kind) ==> !kind_fits(lang, parts, LineKind::UnsupportedEight));
    assert(kind_rank(LineKind::Ignored) < kind_rank(kind) ==> !kind_fits(lang, parts, LineKind::Ignored));
}

/// The table that [`generate_language`] builds, in its order.
pub open spec fn language_table() -> Seq<LanguageView> {
    seq![english_phrases(), russian_phrases(), french_phrases(), german_phrases(), japanese_phrases(), chinese_phrases()]
}

/// The table is keyed by name: no two entries carry the same `language`.
pub proof fn lemma_language_names_distinct()
    ensures
        forall|i: int, j: int|
            0 <= i < language_table().len() && 0 <= j < language_table().len() && i != j
                ==> (#[trigger] language_table()[i]).language != (#[trigger] language_table()[
                j]).language,
{
    reveal_strlit("english");
    reveal_strlit("russian");
    reveal_strlit("french");
    reveal_strlit("german");
    reveal_strlit("japanese");
    reveal_strlit("chinese");
    let t = language_table();
    assert forall|i: int, j: int|
        0 <= i < t.len() && 0 <= j < t.len() && i != j implies #[trigger] t[i].language
        != #[trigger] t[j].language by {
        assert(t[i].language[0] != t[j].language[0]);
    }
}

/// The phrases of each client language, entry by entry, as its client
/// writes them into the log.
pub proof fn lemma_language_table_contents()
    ensures
        language_table().len() == 6,
        language_table()[0].language == "english"@,
        language_table()[0].character == "  Listener: "@,
        language_table()[0].session_time == "  Session Started: "@,
        language_table()[0].damage_out == "to"@,
        language_table()[0].damage_in == "from"@,
        language_table()[0].armor_repaired_out == "remote armor repaired to"@,
        language_table()[0].hull_repaired_out == "remote hull repaired to"@,
        language_table()[0].shield_boosted_out == "remote shield boosted to"@,
        language_table()[0].armor_repaired_in == "remote armor repaired by"@,
        language_table()[0].hull_repaired_in == "remote hull repaired by"@,
        language_table()[0].shield_boosted_in == "remote shield boosted by"@,
        language_table()[0].cap_transfered_out == "remote capacitor transmitted to"@,
        language_table()[0].cap_neutralized_out == "energy neutralized"@,
        language_table()[0].nos_recieved == "energy drained from"@,
        language_table()[0].cap_transfered_in == "remote capacitor transmitted by"@,
        language_table()[0].cap_neutralized_in == "energy neutralized"@,
        language_table()[0].nos_taken == "energy drained to"@,
        language_table()[0].mined == " (mining)"@,
        language_table()[1].language == "russian"@,
        language_table()[1].character == "  Слушатель: "@,
        language_table()[1].session_time == "  Сеанс начат: "@,
        language_table()[1].damage_out == "на"@,
        language_table()[1].damage_in == "из"@,
        language_table()[1].armor_repaired_out == "единиц запаса прочности брони отремонтировано"@,
        language_table()[1].hull_repaired_out == "единиц запаса прочности корпуса отремонтировано"@,
        language_table()[1].shield_boosted_out == "единиц запаса прочности щитов накачано"@,
        language_table()[1].armor_repaired_in == "единиц запаса прочности брони получено дистанционным ремонтом от"@,
        language_table()[1].hull_repaired_in == "единиц запаса прочности корпуса получено дистанционным ремонтом от"@,
        language_table()[1].shield_boosted_in == "единиц запаса прочности щитов получено накачкой от"@,
        language_table()[1].cap_transfered_out == "единиц запаса энергии накопителя отправлено в"@,
        language_table()[1].cap_neutralized_out == "энергии нейтрализовано"@,
        language_table()[1].nos_recieved == "энергии извлечено из"@,
        language_table()[1].cap_transfered_in == "единиц запаса энергии накопителя получено от"@,
        language_table()[1].cap_neutralized_in == "энергии нейтрализовано"@,
        language_table()[1].nos_taken == "энергии извлечено и передано"@,
        language_table()[1].mined == " (mining)"@,
        language_table()[2].language == "french"@,
        language_table()[2].character == "  Auditeur: "@,
        language_table()[2].session_time == "  Session commencée: "@,
        language_table()[2].damage_out == "à"@,
        language_table()[2].damage_in == "de"@,
        language_table()[2].armor_repaired_out == "points de blindage transférés à distance à"@,
        language_table()[2].hull_repaired_out == "points de structure transférés à distance à"@,
        language_table()[2].shield_boosted_out == "points de boucliers transférés à distance à"@,
        language_table()[2].armor_repaired_in == "points de blindage réparés à distance par"@,
        language_table()[2].hull_repaired_in == "points de structure réparés à distance par"@,
        language_table()[2].shield_boosted_in == "points de boucliers transférés à distance par"@,
        language_table()[2].cap_transfered_out == "points de capaciteur transférés à distance à"@,
        language_table()[2].cap_neutralized_out == "d'énergie neutralisée en faveur de"@,
        language_table()[2].nos_recieved == "d'énergie siphonnée aux dépens de"@,
        language_table()[2].cap_transfered_in == "points de capaciteur transférés à distance par"@,
        language_table()[2].cap_neutralized_in == "d'énergie neutralisée aux dépens de"@,
        language_table()[2].nos_taken == "d'énergie siphonnée en faveur de"@,
        language_table()[2].mined == " (mining)"@,
        language_table()[3].language == "german"@,
        language_table()[3].character == "  Empfänger: "@,
        language_table()[3].session_time == "  Sitzung gestartet: "@,
        language_table()[3].damage_out == "nach"@,
        language_table()[3].damage_in == "von"@,
        language_table()[3].armor_repaired_out == "Panzerungs-Fernreparatur zu"@,
        language_table()[3].hull_repaired_out == "Rumpf-Fernreparatur zu"@,
        language_table()[3].shield_boosted_out == "Schildfernbooster aktiviert zu"@,
        language_table()[3].armor_repaired_in == "Panzerungs-Fernreparatur von"@,
        language_table()[3].hull_repaired_in == "Rumpf-Fernreparatur von"@,
        language_table()[3].shield_boosted_in == "Schildfernbooster aktiviert von"@,
        language_table()[3].cap_transfered_out == "Fernenergiespeicher übertragen zu"@,
        language_table()[3].cap_neutralized_out == "Energie neutralisiert"@,
        language_table()[3].nos_recieved == "Energie transferiert von"@,
        language_table()[3].cap_transfered_in == "Fernenergiespeicher übertragen von"@,
        language_table()[3].cap_neutralized_in == "Energie neutralisiert"@,
        language_table()[3].nos_taken == "Energie transferiert zu"@,
        language_table()[3].mined == " (mining)"@,
        language_table()[4].language == "japanese"@,
        language_table()[4].character == "  傍聴者: "@,
        language_table()[4].session_time == "  セッション開始: "@,
        language_table()[4].damage_out == "対象:"@,
        language_table()[4].damage_in == "攻撃者:"@,
        language_table()[4].armor_repaired_out == "remote armor repaired to"@,
        language_table()[4].hull_repaired_out == "remote hull repaired to"@,
        language_table()[4].shield_boosted_out == "remote shield boosted to"@,
        language_table()[4].armor_repaired_in == "remote armor repaired by"@,
        language_table()[4].hull_repaired_in == "remote hull repaired by"@,
        language_table()[4].shield_boosted_in == "remote shield boosted by"@,
        language_table()[4].cap_transfered_out == "remote capacitor transmitted to"@,
        language_table()[4].cap_neutralized_out == "エネルギーニュートラライズ 対象"@,
        language_table()[4].nos_recieved == "エネルギードレイン 対象"@,
        language_table()[4].cap_transfered_in == "remote capacitor transmitted by"@,
        language_table()[4].cap_neutralized_in == "のエネルギーが解放されました<"@,
        language_table()[4].nos_taken == "エネルギードレイン 攻撃者"@,
        language_table()[4].mined == " (mining)"@,
        language_table()[5].language == "chinese"@,
        language_table()[5].character == "  收听者: "@,
        language_table()[5].session_time == "  进程开始: "@,
        language_table()[5].damage_out == "对"@,
        language_table()[5].damage_in == "来自"@,
        language_table()[5].armor_repaired_out == "远程装甲维修量至"@,
        language_table()[5].hull_repaired_out == "远程结构维修量至"@,
        language_table()[5].shield_boosted_out == "远程护盾回充增量至"@,
        language_table()[5].armor_repaired_in == "远程装甲维修量由"@,
        language_table()[5].hull_repaired_in == "远程结构维修量由"@,
        language_table()[5].shield_boosted_in == "远程护盾回充增量由"@,
        language_table()[5].cap_transfered_out == "远程电容传输至"@,
        language_table()[5].cap_neutralized_out == "能量中和"@,
        language_table()[5].nos_recieved == "被从"@,
        language_table()[5].cap_transfered_in == "远程电容传输量由"@,
        language_table()[5].cap_neutralized_in == "能量中和"@,
        language_table()[5].nos_taken == "被吸取到"@,
        language_table()[5].mined == " (mining)"@,
{
}

/// Builds the table of all supported client languages, each entry keyed by
/// its `language` name.
pub fn generate_language() -> (res: Vec<LogLanguage>)
    ensures
        res@.len() == language_table().len(),
        forall|i: int| 0 <= i < res@.len() ==> (#[trigger] res@[i])@ == language_table()[i],
{
    let mut list: Vec<LogLanguage> = Vec::with_capacity(6);
    list.push(
        LogLanguage::new(
            "english",
            "  Listener: ",
            "  Session Started: ",
            "to",
            "from",
            "remote armor repaired to",
            "remote hull repaired to",
            "remote shield boosted to",
            "remote armor repaired by",
            "remote hull repaired by",
            "remote shield boosted by",
            "remote capacitor transmitted to",
            "energy neutralized",
            "energy drained from",
            "remote capacitor transmitted by",
            "energy neutralized",
            "energy drained to",
            " (mining)",
        ),
    );
    list.push(
        LogLanguage::new(
            "russian",
            "  Слушатель: ",
            "  Сеанс начат: ",
            "на",
            "из",
            "единиц запаса прочности брони отремонтировано",
            "единиц запаса прочности корпуса отремонтировано",
            "единиц запаса прочности щитов накачано",
            "единиц запаса прочности брони получено дистанционным ремонтом от",
            "единиц запаса прочности корпуса получено дистанционным ремонтом от",
            "единиц запаса прочности щитов получено накачкой от",
            "единиц запаса энергии накопителя отправлено в",
            "энергии нейтрализовано",
            "энергии извлечено из",
            "единиц запаса энергии накопителя получено от",
            "энергии нейтрализовано",
            "энергии извлечено и передано",
            " (mining)",
        ),
    );
    list.push(
        LogLanguage::new(
            "french",
            "  Auditeur: ",
            "  Session commencée: ",
            "à",
            "de",
            "points de blindage transférés à distance à",
            "points de structure transférés à distance à",
            "points de boucliers transférés à distance à",
            "points de blindage réparés à distance par",
            "points de structure réparés à distance par",
            "points de boucliers transférés à distance par",
            "points de capaciteur transférés à distance à",
            "d'énergie neutralisée en faveur de",
            "d'énergie siphonnée aux dépens de",
            "points de capaciteur transférés à distance par",
            "d'énergie neutralisée aux dépens de",
            "d'énergie siphonnée en faveur de",
            " (mining)",
        ),
    );
    list.push(
        LogLanguage::new(
            "german",
            "  Empfänger: ",
            "  Sitzung gestartet: ",
            "nach",
            "von",
            "Panzerungs-Fernreparatur zu",
            "Rumpf-Fernreparatur zu",
            "Schildfernbooster aktiviert zu",
            "Panzerungs-Fernreparatur von",
            "Rumpf-Fernreparatur von",
            "Schildfernbooster aktiviert von",
            "Fernenergiespeicher übertragen zu",
            "Energie neutralisiert",
            "Energie transferiert von",
            "Fernenergiespeicher übertragen von",
            "Energie neutralisiert",
            "Energie transferiert zu",
            " (mining)",
        ),
    );
    list.push(
        LogLanguage::new(
            "japanese",
            "  傍聴者: ",
            "  セッション開始: ",
            "対象:",
            "攻撃者:",
            "remote armor repaired to",
            "remote hull repaired to",
            "remote shield boosted to",
            "remote armor repaired by",
            "remote hull repaired by",
            "remote shield boosted by",
            "remote capacitor transmitted to",
            "エネルギーニュートラライズ 対象",
            "エネルギードレイン 対象",
            "remote capacitor transmitted by",
            "のエネルギーが解放されました<",
            "エネルギードレイン 攻撃者",
            " (mining)",
        ),
    );
    list.push(
        LogLanguage::new(
            "chinese",
            "  收听者: ",
            "  进程开始: ",
            "对",
            "来自",
            "远程装甲维修量至",
            "远程结构维修量至",
            "远程护盾回充增量至",
            "远程装甲维修量由",
            "远程结构维修量由",
            "远程护盾回充增量由",
            "远程电容传输至",
            "能量中和",
            "被从",
            "远程电容传输量由",
            "能量中和",
            "被吸取到",
            " (mining)",
        ),
    );
    assert(list@.len() == 6);
    list
}

} // verus!
