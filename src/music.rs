//! The game music collection: its folders, which files count as songs, and
//! the random pick.

use vstd::prelude::*;
use crate::text::owned;
use crate::history::same_text;
use crate::chance::choose_index;

verus! {

/// A game series in the music collection.
#[derive(Debug, Clone, Copy, PartialEq, Eq, Structural)]
pub enum Game {
    FF,
    KH,
}

/// The folder of a game series in the music collection.
pub open spec fn game_folder(x: Game) -> Seq<char> {
    match x {
        Game::FF => "Final Fantasy/XIV"@,
        Game::KH => "Kingdom Hearts"@,
    }
}

/// The name a game series in the music collection is offered under.
pub open spec fn game_display(x: Game) -> Seq<char> {
    match x {
        Game::FF => "Final Fantasy"@,
        Game::KH => "Kingdom Hearts"@,
    }
}

impl Game {
    /// The folder that holds its music.
    pub fn folder_name(&self) -> (r: &'static str)
        ensures
            r@ == game_folder(*self),
    {
        match self {
            Game::FF => "Final Fantasy/XIV",
            Game::KH => "Kingdom Hearts",
        }
    }

    /// The name it is offered under.
    pub fn name(&self) -> (r: &'static str)
        ensures
            r@ == game_display(*self),
    {
        match self {
            Game::FF => "Final Fantasy",
            Game::KH => "Kingdom Hearts",
        }
    }
}

/// A Final Fantasy XIV expansion.
#[derive(Debug, Clone, Copy, PartialEq, Eq, Structural)]
pub enum FinalFantasyExpansion {
    XIV,
    ARR,
    HW,
    SB,
    ShB,
    EW,
    DT,
}

/// The folder of a Final Fantasy XIV expansion.
pub open spec fn final_fantasy_expansion_folder(x: FinalFantasyExpansion) -> Seq<char> {
    match x {
        FinalFantasyExpansion::XIV => "XIV"@,
        FinalFantasyExpansion::ARR => "A Realm Reborn"@,
        FinalFantasyExpansion::HW => "Heavensward"@,
        FinalFantasyExpansion::SB => "Stormblood"@,
        FinalFantasyExpansion::ShB => "Shadowbringers"@,
        FinalFantasyExpansion::EW => "Endwalker"@,
        FinalFantasyExpansion::DT => "Dawntrail"@,
    }
}

/// The name a Final Fantasy XIV expansion is offered under.
pub open spec fn final_fantasy_expansion_display(x: FinalFantasyExpansion) -> Seq<char> {
    match x {
        FinalFantasyExpansion::XIV => "XIV Online (1.0)"@,
        FinalFantasyExpansion::ARR => "A Realm Reborn (ARR)"@,
        FinalFantasyExpansion::HW => "Heavensward (HW)"@,
        FinalFantasyExpansion::SB => "Stormblood (SB)"@,
        FinalFantasyExpansion::ShB => "Shadowbringers (ShB)"@,
        FinalFantasyExpansion::EW => "Endwalker (EW)"@,
        FinalFantasyExpansion::DT => "Dawntrail (DT)"@,
    }
}

impl FinalFantasyExpansion {
    /// The folder that holds its music.
    pub fn folder_name(&self) -> (r: &'static str)
        ensures
            r@ == final_fantasy_expansion_folder(*self),
    {
        match self {
            FinalFantasyExpansion::XIV => "XIV",
            FinalFantasyExpansion::ARR => "A Realm Reborn",
            FinalFantasyExpansion::HW => "Heavensward",
            FinalFantasyExpansion::SB => "Stormblood",
            FinalFantasyExpansion::ShB => "Shadowbringers",
            FinalFantasyExpansion::EW => "Endwalker",
            FinalFantasyExpansion::DT => "Dawntrail",
        }
    }

    /// The name it is offered under.
    pub fn name(&self) -> (r: &'static str)
        ensures
            r@ == final_fantasy_expansion_display(*self),
    {
        match self {
            FinalFantasyExpansion::XIV => "XIV Online (1.0)",
            FinalFantasyExpansion::ARR => "A Realm Reborn (ARR)",
            FinalFantasyExpansion::HW => "Heavensward (HW)",
            FinalFantasyExpansion::SB => "Stormblood (SB)",
            FinalFantasyExpansion::ShB => "Shadowbringers (ShB)",
            FinalFantasyExpansion::EW => "Endwalker (EW)",
            FinalFantasyExpansion::DT => "Dawntrail (DT)",
        }
    }
}

/// A Kingdom Hearts title.
#[derive(Debug, Clone, Copy, PartialEq, Eq, Structural)]
pub enum KingdomHeartsTitle {
    I,
    II,
    III,
    DDD,
    BBSDAYS,
}

/// The folder of a Kingdom Hearts title.
pub open spec fn kingdom_hearts_title_folder(x: KingdomHeartsTitle) -> Seq<char> {
    match x {
        KingdomHeartsTitle::I => "Kingdom Hearts"@,
        KingdomHeartsTitle::II => "Kingdom Hearts II"@,
        KingdomHeartsTitle::III => "Kingdom Hearts III, II.8, Unchained χ & Union χ [Cross]"@,
        KingdomHeartsTitle::DDD => "Dream Drop Distance"@,
        KingdomHeartsTitle::BBSDAYS => "Birth by Sleep & 358-2 Days"@,
    }
}

/// The name a Kingdom Hearts title is offered under.
pub open spec fn kingdom_hearts_title_display(x: KingdomHeartsTitle) -> Seq<char> {
    match x {
        KingdomHeartsTitle::I => "I"@,
        KingdomHeartsTitle::II => "II"@,
        KingdomHeartsTitle::III => "III"@,
        KingdomHeartsTitle::DDD => "Dream Drop Distance"@,
        KingdomHeartsTitle::BBSDAYS => "Birth by Sleep + 358-2 Days"@,
    }
}

impl KingdomHeartsTitle {
    /// The folder that holds its music.
    pub fn folder_name(&self) -> (r: &'static str)
        ensures
            r@ == kingdom_hearts_title_folder(*self),
    {
        match self {
            KingdomHeartsTitle::I => "Kingdom Hearts",
            KingdomHeartsTitle::II => "Kingdom Hearts II",
            KingdomHeartsTitle::III => "Kingdom Hearts III, II.8, Unchained χ & Union χ [Cross]",
            KingdomHeartsTitle::DDD => "Dream Drop Distance",
            KingdomHeartsTitle::BBSDAYS => "Birth by Sleep & 358-2 Days",
        }
    }

    /// The name it is offered under.
    pub fn name(&self) -> (r: &'static str)
        ensures
            r@ == kingdom_hearts_title_display(*self),
    {
        match self {
            KingdomHeartsTitle::I => "I",
            KingdomHeartsTitle::II => "II",
            KingdomHeartsTitle::III => "III",
            KingdomHeartsTitle::DDD => "Dream Drop Distance",
            KingdomHeartsTitle::BBSDAYS => "Birth by Sleep + 358-2 Days",
        }
    }
}

/// The root folder of the collection.
pub open spec fn music_root_spec() -> Seq<char> {
    "/mnt/nas/Media/Music/Game/"@
}

/// The root folder of the collection.
pub fn music_root() -> (r: &'static str)
    ensures
        r@ == music_root_spec(),
{
    "/mnt/nas/Media/Music/Game/"
}

/// The folder of a Final Fantasy XIV expansion's music.
pub fn ff_music_dir(expansion: FinalFantasyExpansion) -> (r: String)
    ensures
        r@ == music_root_spec() + game_folder(Game::FF) + "/"@ + final_fantasy_expansion_folder(
            expansion,
        ),
{
    let mut s = owned(music_root());
    s.append(Game::FF.folder_name());
    s.append("/");
    s.append(expansion.folder_name());
    s
}

/// The folder of a Kingdom Hearts title's music.
pub fn kh_music_dir(title: KingdomHeartsTitle) -> (r: String)
    ensures
        r@ == music_root_spec() + game_folder(Game::KH) + "/"@ + kingdom_hearts_title_folder(title),
{
    let mut s = owned(music_root());
    s.append(Game::KH.folder_name());
    s.append("/");
    s.append(title.folder_name());
    s
}

/// Whether a file extension marks a song.
pub fn is_song_extension(ext: &str) -> (r: bool)
    ensures
        r == (ext@ == "mp3"@ || ext@ == "ogg"@ || ext@ == "wav"@),
{
    same_text(ext, "mp3") || same_text(ext, "ogg") || same_text(ext, "wav")
}

/// A song drawn at random from `songs`, or `None` where there is none.
pub fn pick_song(songs: &Vec<String>) -> (r: Option<String>)
    ensures
        songs@.len() == 0 ==> r is None,
        songs@.len() > 0 ==> (r matches Some(s) && exists|i: int|
            0 <= i < songs@.len() && #[trigger] songs@[i] == s),
{
    match choose_index(songs.len()) {
        Some(i) => {
            let s = songs[i].clone();
            assert(songs@[i as int] == s);
            Some(s)
        },
        None => None,
    }
}

/// The reply when an expansion's folder holds no song.
pub fn no_ff_songs_message(expansion: FinalFantasyExpansion) -> (r: String)
    ensures
        r@ == "Couldn't find any songs in the "@ + final_fantasy_expansion_folder(expansion)
            + " folder for Final Fantasy ("@ + final_fantasy_expansion_display(expansion) + ")."@,
{
    let mut s = owned("Couldn't find any songs in the ");
    s.append(expansion.folder_name());
    s.append(" folder for Final Fantasy (");
    s.append(expansion.name());
    s.append(").");
    s
}

/// The reply when a title's folder holds no song.
pub fn no_kh_songs_message(title: KingdomHeartsTitle) -> (r: String)
    ensures
        r@ == "Couldn't find any songs in the "@ + kingdom_hearts_title_folder(title)
            + " folder for Kingdom Hearts ("@ + kingdom_hearts_title_display(title) + ")."@,
{
    let mut s = owned("Couldn't find any songs in the ");
    s.append(title.folder_name());
    s.append(" folder for Kingdom Hearts (");
    s.append(title.name());
    s.append(").");
    s
}

} // verus!
