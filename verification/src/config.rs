//! Player and target attribute sets, and the split attack value.

use vstd::prelude::*;

verus! {

/// Attributes of the player.
#[derive(Debug)]
pub struct PlayerConfig {
    /// Kind of the base attribute (根骨 / 力道 / 身法 / 元气).
    pub jcsx: String,
    /// Value of the base attribute.
    pub jichu_shuxing: u32,
    /// Base attack, without weapon damage.
    pub jichu_gongji: u32,
    /// Critical strike level.
    pub huixin_dengji: u32,
    /// Critical damage level.
    pub huixin_xiaoguo: u32,
    /// Defense penetration level.
    pub pofang_dengji: u32,
    /// Weapon damage.
    pub wuqi_shanghai: u32,
    /// Final attack when known from outside; 0 means computed.
    pub zuizhong_gongji: u32,
}

impl Clone for PlayerConfig {
    fn clone(&self) -> (r: Self)
        ensures
            r == *self,
    {
        PlayerConfig {
            jcsx: self.jcsx.clone(),
            jichu_shuxing: self.jichu_shuxing,
            jichu_gongji: self.jichu_gongji,
            huixin_dengji: self.huixin_dengji,
            huixin_xiaoguo: self.huixin_xiaoguo,
            pofang_dengji: self.pofang_dengji,
            wuqi_shanghai: self.wuqi_shanghai,
            zuizhong_gongji: self.zuizhong_gongji,
        }
    }
}

impl Default for PlayerConfig {
    fn default() -> (r: Self)
        ensures
            r.jcsx@.len() == 0,
            r.jichu_shuxing == 0,
            r.jichu_gongji == 0,
            r.huixin_dengji == 0,
            r.huixin_xiaoguo == 0,
            r.pofang_dengji == 0,
            r.wuqi_shanghai == 0,
            r.zuizhong_gongji == 0,
    {
        PlayerConfig {
            jcsx: String::new(),
            jichu_shuxing: 0,
            jichu_gongji: 0,
            huixin_dengji: 0,
            huixin_xiaoguo: 0,
            pofang_dengji: 0,
            wuqi_shanghai: 0,
            zuizhong_gongji: 0,
        }
    }
}

impl PlayerConfig {
    /// A player with the given attributes; the final attack is left to be
    /// computed (0).
    pub fn new(
        jcsx: String,
        jichu_shuxing: u32,
        jichu_gongji: u32,
        huixin_dengji: u32,
        huixin_xiaoguo: u32,
        pofang_dengji: u32,
        wuqi_shanghai: u32,
    ) -> (r: Self)
        ensures
            r == (PlayerConfig {
                jcsx,
                jichu_shuxing,
                jichu_gongji,
                huixin_dengji,
                huixin_xiaoguo,
                pofang_dengji,
                wuqi_shanghai,
                zuizhong_gongji: 0,
            }),
    {
        PlayerConfig {
            jcsx,
            jichu_shuxing,
            jichu_gongji,
            huixin_dengji,
            huixin_xiaoguo,
            pofang_dengji,
            wuqi_shanghai,
            zuizhong_gongji: 0,
        }
    }
}

/// Attack split in the part from base attack and attributes, and the weapon
/// damage, which enters a skill's damage separately.
#[derive(Debug, Clone, Copy)]
pub struct AtkConfig {
    base: u32,
    extra: u32,
}

impl AtkConfig {
    /// The attack made of a base part and a weapon part.
    pub fn new(base: u32, extra: u32) -> (r: Self)
        ensures
            r.base_spec() == base,
            r.extra_spec() == extra,
    {
        AtkConfig { base, extra }
    }

    /// The attack of a player whose base part (base attack and attribute
    /// conversion, with buffs) is `base`: the weapon part is the player's
    /// weapon damage.
    pub closed spec fn of_player_spec(base: u32, p: PlayerConfig) -> AtkConfig {
        AtkConfig { base, extra: p.wuqi_shanghai }
    }

    /// The attack of a player whose base part is `base` (see `of_player_spec`).
    pub fn of_player(base: u32, p: &PlayerConfig) -> (r: Self)
        ensures
            r == Self::of_player_spec(base, *p),
            r.base_spec() == base,
            r.extra_spec() == p.wuqi_shanghai,
    {
        AtkConfig { base, extra: p.wuqi_shanghai }
    }

    /// Weapon damage is no part of the total attack: for a player and the same
    /// player with other weapon damage, the same base part gives the same
    /// total, which is the base part; the weapon part is the weapon damage.
    pub proof fn lemma_weapon_not_in_total(base: u32, p: PlayerConfig, p2: PlayerConfig)
        requires
            p2 == (PlayerConfig { wuqi_shanghai: p2.wuqi_shanghai, ..p }),
        ensures
            Self::of_player_spec(base, p).base_spec() == Self::of_player_spec(base, p2).base_spec(),
            Self::of_player_spec(base, p).base_spec() == base,
            Self::of_player_spec(base, p).extra_spec() == p.wuqi_shanghai,
            Self::of_player_spec(base, p2).extra_spec() == p2.wuqi_shanghai,
    {
    }

    pub closed spec fn base_spec(self) -> u32 {
        self.base
    }

    pub closed spec fn extra_spec(self) -> u32 {
        self.extra
    }

    /// Total attack: the base part alone (weapon damage is counted through
    /// the skill's weapon coefficient, not here).
    pub fn total(&self) -> (r: u32)
        ensures
            r == self.base_spec(),
    {
        self.base
    }

    /// The base part.
    pub fn atk_base_show(&self) -> (r: u32)
        ensures
            r == self.base_spec(),
    {
        self.base
    }

    /// The weapon part.
    pub fn atk_extra_show(&self) -> (r: u32)
        ensures
            r == self.extra_spec(),
    {
        self.extra
    }
}

/// Attributes of the target.
#[derive(Debug, Clone, Copy, PartialEq, Eq, Structural)]
pub struct HostilepileConfig {
    /// External defense level.
    pub waigong_fangyu: u32,
    /// Internal defense level.
    pub neigong_fangyu: u32,
    /// Toughness level (lowers critical rate and damage).
    pub yujin_dengji: u32,
    /// Dampening level (lowers damage).
    pub huajin_dengji: u32,
    /// Damage reduction in percent.
    pub jianshang_bili: u32,
    /// Target health, for the kill chance.
    pub target_hp: u32,
    /// Maximum health; 0 when not given.
    pub max_hp: u32,
    /// Current health; 0 when not given.
    pub current_hp: u32,
}

impl Default for HostilepileConfig {
    fn default() -> (r: Self)
        ensures
            r == (HostilepileConfig {
                waigong_fangyu: 0,
                neigong_fangyu: 0,
                yujin_dengji: 0,
                huajin_dengji: 0,
                jianshang_bili: 0,
                target_hp: 0,
                max_hp: 0,
                current_hp: 0,
            }),
    {
        HostilepileConfig {
            waigong_fangyu: 0,
            neigong_fangyu: 0,
            yujin_dengji: 0,
            huajin_dengji: 0,
            jianshang_bili: 0,
            target_hp: 0,
            max_hp: 0,
            current_hp: 0,
        }
    }
}

impl HostilepileConfig {
    /// A target with the given defenses; no health given.
    pub fn new(
        waigong_fangyu: u32,
        neigong_fangyu: u32,
        yujin_dengji: u32,
        huajin_dengji: u32,
        jianshang_bili: u32,
    ) -> (r: Self)
        ensures
            r == (HostilepileConfig {
                waigong_fangyu,
                neigong_fangyu,
                yujin_dengji,
                huajin_dengji,
                jianshang_bili,
                target_hp: 0,
                max_hp: 0,
                current_hp: 0,
            }),
    {
        HostilepileConfig {
            waigong_fangyu,
            neigong_fangyu,
            yujin_dengji,
            huajin_dengji,
            jianshang_bili,
            target_hp: 0,
            max_hp: 0,
            current_hp: 0,
        }
    }

    /// The practice target: defenses 100, toughness and dampening 1,
    /// damage reduction 10%, no health given.
    pub fn default() -> (r: Self)
        ensures
            r == (HostilepileConfig {
                waigong_fangyu: 100,
                neigong_fangyu: 100,
                yujin_dengji: 1,
                huajin_dengji: 1,
                jianshang_bili: 10,
                target_hp: 0,
                max_hp: 0,
                current_hp: 0,
            }),
    {
        HostilepileConfig {
            waigong_fangyu: 100,
            neigong_fangyu: 100,
            yujin_dengji: 1,
            huajin_dengji: 1,
            jianshang_bili: 10,
            target_hp: 0,
            max_hp: 0,
            current_hp: 0,
        }
    }
}

} // verus!
