//! Transfer types shared with the front ends, and their conversions from and
//! to the library's own types.

use vstd::prelude::*;
use vstd::std_specs::convert::FromSpecImpl;
use crate::config::{HostilepileConfig, PlayerConfig};
use crate::profession::{get_xinfa_list, profession_list};
use crate::xinfa::{VersionInfo, XinfaSummary};

verus! {

/// One entry of the profession list, as sent to a front end.
#[derive(Debug)]
pub struct XinfaSummaryDTO {
    pub value: String,
    pub label: String,
    pub nom: String,
    pub version_label: Option<String>,
}

impl Clone for XinfaSummaryDTO {
    fn clone(&self) -> (r: Self)
        ensures
            r == *self,
    {
        XinfaSummaryDTO {
            value: self.value.clone(),
            label: self.label.clone(),
            nom: self.nom.clone(),
            version_label: match &self.version_label {
                Some(s) => Some(s.clone()),
                None => None,
            },
        }
    }
}

impl Default for XinfaSummaryDTO {
    fn default() -> (r: Self)
        ensures
            r.value@.len() == 0,
            r.label@.len() == 0,
            r.nom@.len() == 0,
            r.version_label is None,
    {
        XinfaSummaryDTO { value: String::new(), label: String::new(), nom: String::new(), version_label: None }
    }
}

/// Player attributes, as exchanged with a front end.
#[derive(Debug)]
pub struct PlayerConfigDTO {
    pub jcsx: String,
    pub jichu_shuxing: u32,
    pub jichu_gongji: u32,
    pub huixin_dengji: u32,
    pub huixin_xiaoguo: u32,
    pub pofang_dengji: u32,
    pub wuqi_shanghai: u32,
}

impl Clone for PlayerConfigDTO {
    fn clone(&self) -> (r: Self)
        ensures
            r == *self,
    {
        PlayerConfigDTO {
            jcsx: self.jcsx.clone(),
            jichu_shuxing: self.jichu_shuxing,
            jichu_gongji: self.jichu_gongji,
            huixin_dengji: self.huixin_dengji,
            huixin_xiaoguo: self.huixin_xiaoguo,
            pofang_dengji: self.pofang_dengji,
            wuqi_shanghai: self.wuqi_shanghai,
        }
    }
}

impl Default for PlayerConfigDTO {
    fn default() -> (r: Self)
        ensures
            r.jcsx@.len() == 0,
            r.jichu_shuxing == 0,
            r.jichu_gongji == 0,
            r.huixin_dengji == 0,
            r.huixin_xiaoguo == 0,
            r.pofang_dengji == 0,
            r.wuqi_shanghai == 0,
    {
        PlayerConfigDTO {
            jcsx: String::new(),
            jichu_shuxing: 0,
            jichu_gongji: 0,
            huixin_dengji: 0,
            huixin_xiaoguo: 0,
            pofang_dengji: 0,
            wuqi_shanghai: 0,
        }
    }
}

/// Target attributes, as exchanged with a front end.
#[derive(Debug, Clone, Copy, PartialEq, Eq, Structural)]
pub struct HostileConfigDTO {
    pub waigong_fangyu: u32,
    pub neigong_fangyu: u32,
    pub yujin_dengji: u32,
    pub huajin_dengji: u32,
    pub jianshang_bili: u32,
    pub target_hp: u32,
    /// Maximum health; 0 when not given.
    pub max_hp: u32,
    /// Current health; 0 when not given.
    pub current_hp: u32,
}

impl Default for HostileConfigDTO {
    fn default() -> (r: Self)
        ensures
            r == (HostileConfigDTO {
                waigong_fangyu: 0,
                neigong_fangyu: 0,
                yujin_dengji: 0,
                huajin_dengji: 0,
                jianshang_bili: 0,
                target_hp: 0,
                max_hp: 0,
                current_hp: 0,
            }),
    {
        HostileConfigDTO {
            waigong_fangyu: 0,
            neigong_fangyu: 0,
            yujin_dengji: 0,
            huajin_dengji: 0,
            jianshang_bili: 0,
            target_hp: 0,
            max_hp: 0,
            current_hp: 0,
        }
    }
}

/// Data version of a profession file, as exchanged with a front end.
#[derive(Debug, Clone, Copy, PartialEq, Eq, Structural)]
pub struct VersionInfoDTO {
    pub level: u32,
    pub season: u32,
    pub modified: u32,
}

impl Default for VersionInfoDTO {
    fn default() -> (r: Self)
        ensures
            r == (VersionInfoDTO { level: 0, season: 0, modified: 0 }),
    {
        VersionInfoDTO { level: 0, season: 0, modified: 0 }
    }
}

impl From<VersionInfoDTO> for VersionInfo {
    fn from(dto: VersionInfoDTO) -> (r: Self) {
        VersionInfo { level: dto.level, season: dto.season, modified: dto.modified }
    }
}

impl FromSpecImpl<VersionInfoDTO> for VersionInfo {
    open spec fn obeys_from_spec() -> bool {
        true
    }

    open spec fn from_spec(dto: VersionInfoDTO) -> VersionInfo {
        VersionInfo { level: dto.level, season: dto.season, modified: dto.modified }
    }
}

impl From<VersionInfo> for VersionInfoDTO {
    fn from(v: VersionInfo) -> (r: Self) {
        VersionInfoDTO { level: v.level, season: v.season, modified: v.modified }
    }
}

impl FromSpecImpl<VersionInfo> for VersionInfoDTO {
    open spec fn obeys_from_spec() -> bool {
        true
    }

    open spec fn from_spec(v: VersionInfo) -> VersionInfoDTO {
        VersionInfoDTO { level: v.level, season: v.season, modified: v.modified }
    }
}

/// The transfer form of a profession list entry: all but the version.
pub open spec fn summary_dto(s: XinfaSummary) -> XinfaSummaryDTO {
    XinfaSummaryDTO { value: s.value, label: s.label, nom: s.nom, version_label: s.version_label }
}

impl From<XinfaSummary> for XinfaSummaryDTO {
    fn from(s: XinfaSummary) -> (r: Self) {
        XinfaSummaryDTO { value: s.value, label: s.label, nom: s.nom, version_label: s.version_label }
    }
}

impl FromSpecImpl<XinfaSummary> for XinfaSummaryDTO {
    open spec fn obeys_from_spec() -> bool {
        true
    }

    open spec fn from_spec(s: XinfaSummary) -> XinfaSummaryDTO {
        summary_dto(s)
    }
}

/// The transfer form of player attributes (the final attack is not sent).
pub open spec fn player_dto(p: PlayerConfig) -> PlayerConfigDTO {
    PlayerConfigDTO {
        jcsx: p.jcsx,
        jichu_shuxing: p.jichu_shuxing,
        jichu_gongji: p.jichu_gongji,
        huixin_dengji: p.huixin_dengji,
        huixin_xiaoguo: p.huixin_xiaoguo,
        pofang_dengji: p.pofang_dengji,
        wuqi_shanghai: p.wuqi_shanghai,
    }
}

impl From<PlayerConfig> for PlayerConfigDTO {
    fn from(p: PlayerConfig) -> (r: Self) {
        PlayerConfigDTO {
            jcsx: p.jcsx,
            jichu_shuxing: p.jichu_shuxing,
            jichu_gongji: p.jichu_gongji,
            huixin_dengji: p.huixin_dengji,
            huixin_xiaoguo: p.huixin_xiaoguo,
            pofang_dengji: p.pofang_dengji,
            wuqi_shanghai: p.wuqi_shanghai,
        }
    }
}

impl FromSpecImpl<PlayerConfig> for PlayerConfigDTO {
    open spec fn obeys_from_spec() -> bool {
        true
    }

    open spec fn from_spec(p: PlayerConfig) -> PlayerConfigDTO {
        player_dto(p)
    }
}

/// The player of received attributes; the final attack is left to be
/// computed.
pub open spec fn player_of(d: PlayerConfigDTO) -> PlayerConfig {
    PlayerConfig {
        jcsx: d.jcsx,
        jichu_shuxing: d.jichu_shuxing,
        jichu_gongji: d.jichu_gongji,
        huixin_dengji: d.huixin_dengji,
        huixin_xiaoguo: d.huixin_xiaoguo,
        pofang_dengji: d.pofang_dengji,
        wuqi_shanghai: d.wuqi_shanghai,
        zuizhong_gongji: 0,
    }
}

impl From<PlayerConfigDTO> for PlayerConfig {
    fn from(d: PlayerConfigDTO) -> (r: Self) {
        PlayerConfig::new(
            d.jcsx,
            d.jichu_shuxing,
            d.jichu_gongji,
            d.huixin_dengji,
            d.huixin_xiaoguo,
            d.pofang_dengji,
            d.wuqi_shanghai,
        )
    }
}

impl FromSpecImpl<PlayerConfigDTO> for PlayerConfig {
    open spec fn obeys_from_spec() -> bool {
        true
    }

    open spec fn from_spec(d: PlayerConfigDTO) -> PlayerConfig {
        player_of(d)
    }
}

/// The target of received attributes, field by field.
pub open spec fn hostile_of(d: HostileConfigDTO) -> HostilepileConfig {
    HostilepileConfig {
        waigong_fangyu: d.waigong_fangyu,
        neigong_fangyu: d.neigong_fangyu,
        yujin_dengji: d.yujin_dengji,
        huajin_dengji: d.huajin_dengji,
        jianshang_bili: d.jianshang_bili,
        target_hp: d.target_hp,
        max_hp: d.max_hp,
        current_hp: d.current_hp,
    }
}

impl From<HostileConfigDTO> for HostilepileConfig {
    fn from(d: HostileConfigDTO) -> (r: Self) {
        HostilepileConfig {
            waigong_fangyu: d.waigong_fangyu,
            neigong_fangyu: d.neigong_fangyu,
            yujin_dengji: d.yujin_dengji,
            huajin_dengji: d.huajin_dengji,
            jianshang_bili: d.jianshang_bili,
            target_hp: d.target_hp,
            max_hp: d.max_hp,
            current_hp: d.current_hp,
        }
    }
}

impl FromSpecImpl<HostileConfigDTO> for HostilepileConfig {
    open spec fn obeys_from_spec() -> bool {
        true
    }

    open spec fn from_spec(d: HostileConfigDTO) -> HostilepileConfig {
        hostile_of(d)
    }
}

/// The transfer form of target attributes, field by field.
pub open spec fn hostile_dto(h: HostilepileConfig) -> HostileConfigDTO {
    HostileConfigDTO {
        waigong_fangyu: h.waigong_fangyu,
        neigong_fangyu: h.neigong_fangyu,
        yujin_dengji: h.yujin_dengji,
        huajin_dengji: h.huajin_dengji,
        jianshang_bili: h.jianshang_bili,
        target_hp: h.target_hp,
        max_hp: h.max_hp,
        current_hp: h.current_hp,
    }
}

impl From<HostilepileConfig> for HostileConfigDTO {
    fn from(h: HostilepileConfig) -> (r: Self) {
        HostileConfigDTO {
            waigong_fangyu: h.waigong_fangyu,
            neigong_fangyu: h.neigong_fangyu,
            yujin_dengji: h.yujin_dengji,
            huajin_dengji: h.huajin_dengji,
            jianshang_bili: h.jianshang_bili,
            target_hp: h.target_hp,
            max_hp: h.max_hp,
            current_hp: h.current_hp,
        }
    }
}

impl FromSpecImpl<HostilepileConfig> for HostileConfigDTO {
    open spec fn obeys_from_spec() -> bool {
        true
    }

    open spec fn from_spec(h: HostilepileConfig) -> HostileConfigDTO {
        hostile_dto(h)
    }
}

/// A target sent out and received back is the same target.
pub proof fn lemma_hostile_round_trip(h: HostilepileConfig)
    ensures
        hostile_of(hostile_dto(h)) == h,
{
}

/// Player attributes sent out and received back are the same, but for the
/// final attack, which is reset to be computed.
pub proof fn lemma_player_round_trip(p: PlayerConfig)
    ensures
        player_of(player_dto(p)) == (PlayerConfig { zuizhong_gongji: 0, ..p }),
{
}

/// The profession list of the candidate files (see `get_xinfa_list`), in
/// transfer form.
pub fn list_professions(candidates: &Vec<XinfaSummary>) -> (r: Vec<XinfaSummaryDTO>)
    ensures
        r@ == profession_list(candidates@).map_values(|s: XinfaSummary| summary_dto(s)),
{
    let list = get_xinfa_list(candidates);
    let mut r: Vec<XinfaSummaryDTO> = Vec::new();
    let mut i: usize = 0;
    while i < list.len()
        invariant
            i <= list@.len(),
            list@ == profession_list(candidates@),
            r@ == list@.take(i as int).map_values(|s: XinfaSummary| summary_dto(s)),
        decreases list.len() - i,
    {
        let s = list[i].clone();
        r.push(XinfaSummaryDTO::from(s));
        assert(list@.take(i + 1).map_values(|s: XinfaSummary| summary_dto(s)) =~= list@.take(i as int).map_values(
            |s: XinfaSummary| summary_dto(s),
        ).push(summary_dto(list@[i as int])));
        i += 1;
    }
    assert(list@.take(list@.len() as int) =~= list@);
    r
}

/// The profession list of the candidate files (see `get_xinfa_list`).
pub fn list_available(candidates: &Vec<XinfaSummary>) -> (r: Vec<XinfaSummary>)
    ensures
        r@ == profession_list(candidates@),
{
    get_xinfa_list(candidates)
}

} // verus!
