//! Every sentence the backend says, in every language it speaks.
//!
//! Adding a language is adding a variant to `Lang`: every match that needs the new translation
//! is then named by the compiler.

use crate::words::{decimal, decimal_of, joined2, joined3, joined5, same_text, signed_decimal, signed_decimal_of};
use crate::std_calls::{all_ascii, ascii_lower_char, lowercase, spec_lowercase};
use vstd::prelude::*;

verus! {

/// The languages the interface speaks.
#[derive(Clone, Copy, Debug, PartialEq, Eq, Structural)]
pub enum Lang {
    Es,
    En,
}

/// A number as the screen writes it.
pub open spec fn num(n: int) -> Seq<char> {
    decimal(n as nat)
}

/// The episode numbers before the last, separated by commas.
pub open spec fn comma_list(episodes: Seq<u32>) -> Seq<char>
    decreases episodes.len(),
{
    if episodes.len() == 0 {
        Seq::empty()
    } else if episodes.len() == 1 {
        num(episodes[0] as int)
    } else {
        comma_list(episodes.drop_last()) + ", "@ + num(episodes.last() as int)
    }
}

/// Episode numbers read as prose: commas between them, and `joint` before the last.
pub open spec fn spoken_list(episodes: Seq<u32>, joint: Seq<char>) -> Seq<char> {
    if episodes.len() == 0 {
        Seq::empty()
    } else if episodes.len() == 1 {
        num(episodes[0] as int)
    } else {
        comma_list(episodes.drop_last()) + joint + num(episodes.last() as int)
    }
}

/// "del episodio 4", "de los episodios 4 y 7".
pub open spec fn of_episodes_es_text(episodes: Seq<u32>) -> Seq<char> {
    if episodes.len() == 1 {
        "del episodio "@ + num(episodes[0] as int)
    } else {
        "de los episodios "@ + spoken_list(episodes, " y "@)
    }
}

/// "episode 4", "episodes 4 and 7".
pub open spec fn episodes_en_text(episodes: Seq<u32>) -> Seq<char> {
    if episodes.len() == 1 {
        "episode "@ + num(episodes[0] as int)
    } else {
        "episodes "@ + spoken_list(episodes, " and "@)
    }
}

/// The language a code names on screen, when the code is one the interface speaks.
pub open spec fn lang_of_code(code: Seq<char>) -> Option<Lang> {
    if code == "es"@ {
        Some(Lang::Es)
    } else if code == "en"@ {
        Some(Lang::En)
    } else {
        None
    }
}

/// The noun each language code answers to, in Spanish.
pub open spec fn noun_es(code: Seq<char>) -> Option<Seq<char>> {
    if code == "es"@ { Some("español"@) }
    else if code == "es-419"@ { Some("español latinoamericano"@) }
    else if code == "en"@ { Some("inglés"@) }
    else if code == "it"@ { Some("italiano"@) }
    else if code == "fr"@ { Some("francés"@) }
    else if code == "de"@ { Some("alemán"@) }
    else if code == "nl"@ { Some("neerlandés"@) }
    else if code == "pl"@ { Some("polaco"@) }
    else if code == "cs"@ { Some("checo"@) }
    else if code == "hu"@ { Some("húngaro"@) }
    else if code == "ru"@ { Some("ruso"@) }
    else if code == "tr"@ { Some("turco"@) }
    else if code == "hi"@ { Some("hindi"@) }
    else if code == "ko"@ { Some("coreano"@) }
    else if code == "ja"@ { Some("japonés"@) }
    else if code == "pt"@ { Some("portugués"@) }
    else if code == "pt-br"@ { Some("portugués brasileño"@) }
    else if code == "nordic"@ { Some("nórdico"@) }
    else { None }
}

/// The noun each language code answers to, in English.
pub open spec fn noun_en(code: Seq<char>) -> Option<Seq<char>> {
    if code == "es"@ { Some("Spanish"@) }
    else if code == "es-419"@ { Some("Latin American Spanish"@) }
    else if code == "en"@ { Some("English"@) }
    else if code == "it"@ { Some("Italian"@) }
    else if code == "fr"@ { Some("French"@) }
    else if code == "de"@ { Some("German"@) }
    else if code == "nl"@ { Some("Dutch"@) }
    else if code == "pl"@ { Some("Polish"@) }
    else if code == "cs"@ { Some("Czech"@) }
    else if code == "hu"@ { Some("Hungarian"@) }
    else if code == "ru"@ { Some("Russian"@) }
    else if code == "tr"@ { Some("Turkish"@) }
    else if code == "hi"@ { Some("Hindi"@) }
    else if code == "ko"@ { Some("Korean"@) }
    else if code == "ja"@ { Some("Japanese"@) }
    else if code == "pt"@ { Some("Portuguese"@) }
    else if code == "pt-br"@ { Some("Brazilian Portuguese"@) }
    else if code == "nordic"@ { Some("Nordic"@) }
    else { None }
}

/// The noun a language code answers to on screen, in `lang`.
pub open spec fn noun_in(lang: Lang, code: Seq<char>) -> Option<Seq<char>> {
    match lang {
        Lang::Es => noun_es(code),
        Lang::En => noun_en(code),
    }
}

/// Who a service is, said in `lang`.
pub open spec fn role_text(lang: Lang, what: Seq<char>) -> Seq<char> {
    match lang {
        Lang::Es => if what == "nzbget"@ {
            "el descargador"@
        } else if what == "the indexer"@ || what == "the title lookup"@ {
            "el buscador"@
        } else if what == "opensubtitles"@ || what == "the subtitle file host"@ {
            "el servicio de subtítulos"@
        } else if what == "the film database"@ {
            "el buscador de fichas"@
        } else {
            "internet"@
        },
        Lang::En => if what == "nzbget"@ {
            "the downloader"@
        } else if what == "the indexer"@ || what == "the title lookup"@ {
            "the indexer"@
        } else if what == "opensubtitles"@ || what == "the subtitle file host"@ {
            "the subtitle service"@
        } else if what == "the film database"@ {
            "the film database"@
        } else {
            "the internet"@
        },
    }
}

/// What happened to the copies, when nothing came of them.
pub open spec fn gave_up_text(lang: Lang, series: bool, tried: nat, untried: nat) -> Seq<char> {
    match lang {
        Lang::Es => {
            let thing = if series { "esta temporada"@ } else { "esta película"@ };
            let what_happened = if untried == 0 && tried <= 1 {
                "la única copia que había estaba estropeada"@
            } else if untried == 0 {
                "he probado las "@ + num(tried as int) + " copias que había y todas estaban estropeadas"@
            } else {
                "he probado "@ + num(tried as int) + " copias y todas estaban estropeadas; quedan "@
                    + num(untried as int) + " sin probar"@
            };
            "No he podido conseguir "@ + thing + ": "@ + what_happened
                + ". Vuelve a probar dentro de unos días."@
        },
        Lang::En => {
            let thing = if series { "this season"@ } else { "this film"@ };
            let what_happened = if untried == 0 && tried <= 1 {
                "the only copy there was arrived broken"@
            } else if untried == 0 {
                "I tried all "@ + num(tried as int) + " copies there were and every one was broken"@
            } else {
                "I tried "@ + num(tried as int) + " copies and every one was broken; "@ + num(
                    untried as int,
                ) + " remain untried"@
            };
            "I could not get "@ + thing + ": "@ + what_happened + ". Try again in a few days."@
        },
    }
}

/// How a copy's definition reads on the versions screen.
pub open spec fn definition_text(lang: Lang, definition: Seq<char>) -> Seq<char> {
    if definition == "4K"@ {
        "4K"@
    } else {
        match lang {
            Lang::Es => if definition == "1080p"@ {
                "Alta definición (1080p)"@
            } else if definition == "720p"@ {
                "Buena calidad (720p)"@
            } else {
                "Calidad normal"@
            },
            Lang::En => if definition == "1080p"@ {
                "High definition (1080p)"@
            } else if definition == "720p"@ {
                "Good quality (720p)"@
            } else {
                "Normal quality"@
            },
        }
    }
}

/// Which language, by its code, among those the interface speaks.
pub fn from_code_of(code: &str) -> (r: Option<Lang>)
    ensures
        r == lang_of_code(code@),
{
    if same_text(code, "es") {
        Some(Lang::Es)
    } else if same_text(code, "en") {
        Some(Lang::En)
    } else {
        None
    }
}

fn noun_es_of(code: &str) -> (r: Option<&'static str>)
    ensures
        match r {
            Some(noun) => noun_es(code@) == Some(noun@),
            None => noun_es(code@) is None,
        },
{
    if same_text(code, "es") { Some("español") }
    else if same_text(code, "es-419") { Some("español latinoamericano") }
    else if same_text(code, "en") { Some("inglés") }
    else if same_text(code, "it") { Some("italiano") }
    else if same_text(code, "fr") { Some("francés") }
    else if same_text(code, "de") { Some("alemán") }
    else if same_text(code, "nl") { Some("neerlandés") }
    else if same_text(code, "pl") { Some("polaco") }
    else if same_text(code, "cs") { Some("checo") }
    else if same_text(code, "hu") { Some("húngaro") }
    else if same_text(code, "ru") { Some("ruso") }
    else if same_text(code, "tr") { Some("turco") }
    else if same_text(code, "hi") { Some("hindi") }
    else if same_text(code, "ko") { Some("coreano") }
    else if same_text(code, "ja") { Some("japonés") }
    else if same_text(code, "pt") { Some("portugués") }
    else if same_text(code, "pt-br") { Some("portugués brasileño") }
    else if same_text(code, "nordic") { Some("nórdico") }
    else { None }
}

fn noun_en_of(code: &str) -> (r: Option<&'static str>)
    ensures
        match r {
            Some(noun) => noun_en(code@) == Some(noun@),
            None => noun_en(code@) is None,
        },
{
    if same_text(code, "es") { Some("Spanish") }
    else if same_text(code, "es-419") { Some("Latin American Spanish") }
    else if same_text(code, "en") { Some("English") }
    else if same_text(code, "it") { Some("Italian") }
    else if same_text(code, "fr") { Some("French") }
    else if same_text(code, "de") { Some("German") }
    else if same_text(code, "nl") { Some("Dutch") }
    else if same_text(code, "pl") { Some("Polish") }
    else if same_text(code, "cs") { Some("Czech") }
    else if same_text(code, "hu") { Some("Hungarian") }
    else if same_text(code, "ru") { Some("Russian") }
    else if same_text(code, "tr") { Some("Turkish") }
    else if same_text(code, "hi") { Some("Hindi") }
    else if same_text(code, "ko") { Some("Korean") }
    else if same_text(code, "ja") { Some("Japanese") }
    else if same_text(code, "pt") { Some("Portuguese") }
    else if same_text(code, "pt-br") { Some("Brazilian Portuguese") }
    else if same_text(code, "nordic") { Some("Nordic") }
    else { None }
}

/// The noun a language code answers to on screen, whatever its capitals.
pub fn language_noun(lang: Lang, code: &str) -> (r: Option<&'static str>)
    ensures
        match r {
            Some(noun) => noun_in(lang, spec_lowercase(code@)) == Some(noun@),
            None => noun_in(lang, spec_lowercase(code@)) is None,
        },
{
    let plain = lowercase(code);
    match lang {
        Lang::Es => noun_es_of(plain.as_str()),
        Lang::En => noun_en_of(plain.as_str()),
    }
}

fn comma_list_of(episodes: &[u32], upto: usize) -> (r: String)
    requires
        upto <= episodes@.len(),
    ensures
        r@ == comma_list(episodes@.subrange(0, upto as int)),
    decreases upto,
{
    if upto == 0 {
        assert(episodes@.subrange(0, 0).len() == 0);
        String::new()
    } else if upto == 1 {
        decimal_of(episodes[0] as u64)
    } else {
        let mut front = comma_list_of(episodes, upto - 1);
        assert(episodes@.subrange(0, upto as int).drop_last() =~= episodes@.subrange(
            0,
            upto - 1,
        ));
        front.append(", ");
        let last = decimal_of(episodes[upto - 1] as u64);
        front.append(last.as_str());
        front
    }
}

/// Episode numbers read as prose, `last_joint` before the last of them.
pub fn join_list(episodes: &[u32], last_joint: &str) -> (r: String)
    ensures
        r@ == spoken_list(episodes@, last_joint@),
{
    let n = episodes.len();
    if n == 0 {
        String::new()
    } else if n == 1 {
        decimal_of(episodes[0] as u64)
    } else {
        let mut front = comma_list_of(episodes, n - 1);
        assert(episodes@.drop_last() =~= episodes@.subrange(0, n - 1));
        front.append(last_joint);
        let last = decimal_of(episodes[n - 1] as u64);
        front.append(last.as_str());
        front
    }
}

/// "4, 7 y 9".
pub fn list_es(episodes: &[u32]) -> (r: String)
    ensures
        r@ == spoken_list(episodes@, " y "@),
{
    join_list(episodes, " y ")
}

/// "del episodio 4", "de los episodios 4 y 7".
pub fn of_episodes_es(episodes: &[u32]) -> (r: String)
    ensures
        r@ == of_episodes_es_text(episodes@),
{
    if episodes.len() == 1 {
        let only = decimal_of(episodes[0] as u64);
        joined2("del episodio ", only.as_str())
    } else {
        let list = list_es(episodes);
        joined2("de los episodios ", list.as_str())
    }
}

/// "episode 4", "episodes 4 and 7".
pub fn episodes_en(episodes: &[u32]) -> (r: String)
    ensures
        r@ == episodes_en_text(episodes@),
{
    if episodes.len() == 1 {
        let only = decimal_of(episodes[0] as u64);
        joined2("episode ", only.as_str())
    } else {
        let list = join_list(episodes, " and ");
        joined2("episodes ", list.as_str())
    }
}

impl Lang {
    /// The language the interface speaks, from the setting or this computer, English when the
    /// computer speaks something the interface cannot.
    pub fn from_code(code: &str) -> (r: Option<Lang>)
        ensures
            r == lang_of_code(code@),
    {
        from_code_of(code)
    }

    /// Who a service is, said so she can tell which one is meant.
    pub fn role(self, what: &str) -> (r: &'static str)
        ensures
            r@ == role_text(self, what@),
    {
        let nzbget = same_text(what, "nzbget");
        let indexer = same_text(what, "the indexer") || same_text(what, "the title lookup");
        let subtitles = same_text(what, "opensubtitles") || same_text(
            what,
            "the subtitle file host",
        );
        let films = same_text(what, "the film database");
        match self {
            Lang::Es => if nzbget {
                "el descargador"
            } else if indexer {
                "el buscador"
            } else if subtitles {
                "el servicio de subtítulos"
            } else if films {
                "el buscador de fichas"
            } else {
                "internet"
            },
            Lang::En => if nzbget {
                "the downloader"
            } else if indexer {
                "the indexer"
            } else if subtitles {
                "the subtitle service"
            } else if films {
                "the film database"
            } else {
                "the internet"
            },
        }
    }

    // --- giving up and carrying on -------------------------------------------------

    /// Why nothing came of a film or a season: how many copies were tried and how many were not.
    pub fn gave_up(self, series: bool, tried: usize, untried: usize) -> (r: String)
        ensures
            r@ == gave_up_text(self, series, tried as nat, untried as nat),
    {
        let tried_said = decimal_of(tried as u64);
        let untried_said = decimal_of(untried as u64);
        match self {
            Lang::Es => {
                let thing = if series { "esta temporada" } else { "esta película" };
                let what_happened = if untried == 0 && tried <= 1 {
                    String::from_str("la única copia que había estaba estropeada")
                } else if untried == 0 {
                    joined3(
                        "he probado las ",
                        tried_said.as_str(),
                        " copias que había y todas estaban estropeadas",
                    )
                } else {
                    joined5(
                        "he probado ",
                        tried_said.as_str(),
                        " copias y todas estaban estropeadas; quedan ",
                        untried_said.as_str(),
                        " sin probar",
                    )
                };
                joined5(
                    "No he podido conseguir ",
                    thing,
                    ": ",
                    what_happened.as_str(),
                    ". Vuelve a probar dentro de unos días.",
                )
            },
            Lang::En => {
                let thing = if series { "this season" } else { "this film" };
                let what_happened = if untried == 0 && tried <= 1 {
                    String::from_str("the only copy there was arrived broken")
                } else if untried == 0 {
                    joined3(
                        "I tried all ",
                        tried_said.as_str(),
                        " copies there were and every one was broken",
                    )
                } else {
                    joined5(
                        "I tried ",
                        tried_said.as_str(),
                        " copies and every one was broken; ",
                        untried_said.as_str(),
                        " remain untried",
                    )
                };
                joined5(
                    "I could not get ",
                    thing,
                    ": ",
                    what_happened.as_str(),
                    ". Try again in a few days.",
                )
            },
        }
    }

    /// What `download_starts` says.
    pub open spec fn download_starts_text(self, first: bool, size: Seq<char>) -> Seq<char> {
        match (self, first) {
            (Lang::Es, true) => "Empieza la descarga ("@ + size + ")."@,
            (Lang::Es, false) => "Empieza la descarga de otra copia ("@ + size + ")."@,
            (Lang::En, true) => "The download starts ("@ + size + ")."@,
            (Lang::En, false) => "The download of another copy starts ("@ + size + ")."@,
        }
    }

    /// The download starting, the first copy or another one, with its size.
    pub fn download_starts(self, first: bool, size: &str) -> (r: String)
        ensures
            r@ == self.download_starts_text(first, size@),
    {
        match (self, first) {
            (Lang::Es, true) => joined3("Empieza la descarga (", size, ")."),
            (Lang::Es, false) => joined3("Empieza la descarga de otra copia (", size, ")."),
            (Lang::En, true) => joined3("The download starts (", size, ")."),
            (Lang::En, false) => joined3("The download of another copy starts (", size, ")."),
        }
    }

    /// What `no_room_on_disk` says.
    pub open spec fn no_room_on_disk_text(self, needed: Seq<char>, free: Seq<char>) -> Seq<char> {
        match self {
            Lang::Es => "No hay sitio en el disco. Hace falta un hueco de unos "@ + needed
                + " y quedan "@ + free
                + ". Quita alguna película que ya hayas visto y vuelve a intentarlo."@,
            Lang::En => "There is no room on the disk. About "@ + needed + " is needed and "@
                + free + " remains. Remove a film you have already watched and try again."@,
        }
    }

    /// The disk is too full for the copy: how much is needed and how much is left.
    pub fn no_room_on_disk(self, needed: &str, free: &str) -> (r: String)
        ensures
            r@ == self.no_room_on_disk_text(needed@, free@),
    {
        match self {
            Lang::Es => joined5(
                "No hay sitio en el disco. Hace falta un hueco de unos ",
                needed,
                " y quedan ",
                free,
                ". Quita alguna película que ya hayas visto y vuelve a intentarlo.",
            ),
            Lang::En => joined5(
                "There is no room on the disk. About ",
                needed,
                " is needed and ",
                free,
                " remains. Remove a film you have already watched and try again.",
            ),
        }
    }

    /// What `season_label` says.
    pub open spec fn season_label_text(self, first: u32, last: u32) -> Seq<char> {
        match (self, first == last) {
            (Lang::Es, true) => "Temporada "@ + num(first as int),
            (Lang::Es, false) => "Temporadas "@ + num(first as int) + " a "@ + num(last as int),
            (Lang::En, true) => "Season "@ + num(first as int),
            (Lang::En, false) => "Seasons "@ + num(first as int) + " to "@ + num(last as int),
        }
    }

    /// "Temporada 1", "Temporadas 1 a 3".
    pub fn season_label(self, first: u32, last: u32) -> (r: String)
        ensures
            r@ == self.season_label_text(first, last),
    {
        let first_said = decimal_of(first as u64);
        let last_said = decimal_of(last as u64);
        match (self, first == last) {
            (Lang::Es, true) => joined2("Temporada ", first_said.as_str()),
            (Lang::Es, false) => {
                let mut r = joined3("Temporadas ", first_said.as_str(), " a ");
                r.append(last_said.as_str());
                r
            },
            (Lang::En, true) => joined2("Season ", first_said.as_str()),
            (Lang::En, false) => {
                let mut r = joined3("Seasons ", first_said.as_str(), " to ");
                r.append(last_said.as_str());
                r
            },
        }
    }

    /// What `season_episode_label` says.
    pub open spec fn season_episode_label_text(self, season: u32, episode: u32) -> Seq<char> {
        match self {
            Lang::Es => "Temporada "@ + num(season as int) + " · Episodio "@ + num(episode as int),
            Lang::En => "Season "@ + num(season as int) + " · Episode "@ + num(episode as int),
        }
    }

    /// "Temporada 1 · Episodio 2".
    pub fn season_episode_label(self, season: u32, episode: u32) -> (r: String)
        ensures
            r@ == self.season_episode_label_text(season, episode),
    {
        let season_said = decimal_of(season as u64);
        let episode_said = decimal_of(episode as u64);
        match self {
            Lang::Es => {
                let mut r = joined3("Temporada ", season_said.as_str(), " · Episodio ");
                r.append(episode_said.as_str());
                r
            },
            Lang::En => {
                let mut r = joined3("Season ", season_said.as_str(), " · Episode ");
                r.append(episode_said.as_str());
                r
            },
        }
    }

    /// What `episode_label` says.
    pub open spec fn episode_label_text(self, episode: u32) -> Seq<char> {
        match self {
            Lang::Es => "Episodio "@ + num(episode as int),
            Lang::En => "Episode "@ + num(episode as int),
        }
    }

    /// "Episodio 2".
    pub fn episode_label(self, episode: u32) -> (r: String)
        ensures
            r@ == self.episode_label_text(episode),
    {
        let said = decimal_of(episode as u64);
        match self {
            Lang::Es => joined2("Episodio ", said.as_str()),
            Lang::En => joined2("Episode ", said.as_str()),
        }
    }

    /// What `video_label` says.
    pub open spec fn video_label_text(self, position: usize) -> Seq<char> {
        match self {
            Lang::Es => "Vídeo "@ + num(position as int),
            Lang::En => "Video "@ + num(position as int),
        }
    }

    /// "Vídeo 3", for a file whose episode nobody can tell.
    pub fn video_label(self, position: usize) -> (r: String)
        ensures
            r@ == self.video_label_text(position),
    {
        let said = decimal_of(position as u64);
        match self {
            Lang::Es => joined2("Vídeo ", said.as_str()),
            Lang::En => joined2("Video ", said.as_str()),
        }
    }

    // --- what a copy is, on the versions screen ------------------------------------

    /// A copy's definition in words, the resolution beside them.
    pub fn definition(self, definition: &'static str) -> (r: &'static str)
        ensures
            r@ == definition_text(self, definition@),
    {
        if same_text(definition, "4K") {
            return "4K";
        }
        let full = same_text(definition, "1080p");
        let good = same_text(definition, "720p");
        match self {
            Lang::Es => if full {
                "Alta definición (1080p)"
            } else if good {
                "Buena calidad (720p)"
            } else {
                "Calidad normal"
            },
            Lang::En => if full {
                "High definition (1080p)"
            } else if good {
                "Good quality (720p)"
            } else {
                "Normal quality"
            },
        }
    }

    // --- time and the tray ---------------------------------------------------------

    /// What `about_minutes` says.
    pub open spec fn about_minutes_text(self, minutes: i64) -> Seq<char> {
        match self {
            Lang::Es => "Unos "@ + signed_decimal(minutes as int) + " minutos"@,
            Lang::En => "About "@ + signed_decimal(minutes as int) + " minutes"@,
        }
    }

    /// "Unos 12 minutos".
    pub fn about_minutes(self, minutes: i64) -> (r: String)
        ensures
            r@ == self.about_minutes_text(minutes),
    {
        let said = signed_decimal_of(minutes);
        match self {
            Lang::Es => joined3("Unos ", said.as_str(), " minutos"),
            Lang::En => joined3("About ", said.as_str(), " minutes"),
        }
    }

    /// What `downloads_running` says.
    pub open spec fn downloads_running_text(self, several: usize) -> Seq<char> {
        match self {
            Lang::Es => num(several as int) + " descargas en marcha"@,
            Lang::En => num(several as int) + " downloads running"@,
        }
    }

    /// "3 descargas en marcha".
    pub fn downloads_running(self, several: usize) -> (r: String)
        ensures
            r@ == self.downloads_running_text(several),
    {
        let said = decimal_of(several as u64);
        match self {
            Lang::Es => joined2(said.as_str(), " descargas en marcha"),
            Lang::En => joined2(said.as_str(), " downloads running"),
        }
    }

    /// What `downloads_at` says.
    pub open spec fn downloads_at_text(self, several: usize, speed: Seq<char>) -> Seq<char> {
        match self {
            Lang::Es => num(several as int) + " descargas · "@ + speed,
            Lang::En => num(several as int) + " downloads · "@ + speed,
        }
    }

    /// "3 descargas · 5 MB/s".
    pub fn downloads_at(self, several: usize, speed: &str) -> (r: String)
        ensures
            r@ == self.downloads_at_text(several, speed@),
    {
        let said = decimal_of(several as u64);
        match self {
            Lang::Es => joined3(said.as_str(), " descargas · ", speed),
            Lang::En => joined3(said.as_str(), " downloads · ", speed),
        }
    }

    /// What `and_more` says.
    pub open spec fn and_more_text(self, more: usize) -> Seq<char> {
        match self {
            Lang::Es => "y "@ + num(more as int) + " más"@,
            Lang::En => "and "@ + num(more as int) + " more"@,
        }
    }

    /// "y 2 más", for the films a tooltip had no room for.
    pub fn and_more(self, more: usize) -> (r: String)
        ensures
            r@ == self.and_more_text(more),
    {
        let said = decimal_of(more as u64);
        match self {
            Lang::Es => joined3("y ", said.as_str(), " más"),
            Lang::En => joined3("and ", said.as_str(), " more"),
        }
    }

    // --- finishing: subtitles ------------------------------------------------------

    /// What `subtitles_added` says.
    pub open spec fn subtitles_added_text(self, saved: usize) -> Seq<char> {
        match (self, saved == 1) {
            (Lang::Es, true) => "Subtítulos en español añadidos"@,
            (Lang::Es, false) => "Subtítulos en español añadidos a "@ + num(saved as int)
                + " episodios"@,
            (Lang::En, true) => "Subtitles added"@,
            (Lang::En, false) => "Subtitles added to "@ + num(saved as int) + " episodes"@,
        }
    }

    /// Subtitles saved for one film, or for several episodes.
    pub fn subtitles_added(self, saved: usize) -> (r: String)
        ensures
            r@ == self.subtitles_added_text(saved),
    {
        let said = decimal_of(saved as u64);
        match (self, saved == 1) {
            (Lang::Es, true) => String::from_str("Subtítulos en español añadidos"),
            (Lang::Es, false) => joined3(
                "Subtítulos en español añadidos a ",
                said.as_str(),
                " episodios",
            ),
            (Lang::En, true) => String::from_str("Subtitles added"),
            (Lang::En, false) => joined3("Subtitles added to ", said.as_str(), " episodes"),
        }
    }

    /// What `subtitles_missing_for` says.
    pub open spec fn subtitles_missing_for_text(self, episodes: Seq<u32>) -> Seq<char> {
        match self {
            Lang::Es => "Faltan los subtítulos "@ + of_episodes_es_text(episodes),
            Lang::En => "Subtitles are missing for "@ + episodes_en_text(episodes),
        }
    }

    /// Which episodes are still without subtitles.
    pub fn subtitles_missing_for(self, episodes: &[u32]) -> (r: String)
        ensures
            r@ == self.subtitles_missing_for_text(episodes@),
    {
        match self {
            Lang::Es => {
                let list = of_episodes_es(episodes);
                joined2("Faltan los subtítulos ", list.as_str())
            },
            Lang::En => {
                let list = episodes_en(episodes);
                joined2("Subtitles are missing for ", list.as_str())
            },
        }
    }

    /// What `subtitles_missing_for_all` says.
    pub open spec fn subtitles_missing_for_all_text(self, total: usize) -> Seq<char> {
        match self {
            Lang::Es => "Faltan los subtítulos de los "@ + num(total as int) + " episodios"@,
            Lang::En => "Subtitles are missing for all "@ + num(total as int) + " episodes"@,
        }
    }

    /// Every one of `total` episodes is without subtitles.
    pub fn subtitles_missing_for_all(self, total: usize) -> (r: String)
        ensures
            r@ == self.subtitles_missing_for_all_text(total),
    {
        let said = decimal_of(total as u64);
        match self {
            Lang::Es => joined3("Faltan los subtítulos de los ", said.as_str(), " episodios"),
            Lang::En => joined3("Subtitles are missing for all ", said.as_str(), " episodes"),
        }
    }

    /// What `subtitles_missing_count` says.
    pub open spec fn subtitles_missing_count_text(self, missing: usize, total: usize) -> Seq<char> {
        match self {
            Lang::Es => "Faltan los subtítulos de "@ + num(missing as int) + " episodios de "@
                + num(total as int),
            Lang::En => "Subtitles are missing for "@ + num(missing as int) + " of "@ + num(
                total as int,
            ) + " episodes"@,
        }
    }

    /// How many of the episodes are without subtitles.
    pub fn subtitles_missing_count(self, missing: usize, total: usize) -> (r: String)
        ensures
            r@ == self.subtitles_missing_count_text(missing, total),
    {
        let missing_said = decimal_of(missing as u64);
        let total_said = decimal_of(total as u64);
        match self {
            Lang::Es => {
                let mut r = joined3(
                    "Faltan los subtítulos de ",
                    missing_said.as_str(),
                    " episodios de ",
                );
                r.append(total_said.as_str());
                r
            },
            Lang::En => joined5(
                "Subtitles are missing for ",
                missing_said.as_str(),
                " of ",
                total_said.as_str(),
                " episodes",
            ),
        }
    }

    /// What `subtitles_fetched_and_missing` says.
    pub open spec fn subtitles_fetched_and_missing_text(self, fetched: Seq<char>, missing: Seq<char>) -> Seq<char> {
        match self {
            Lang::Es => "Ya están los subtítulos "@ + fetched + ". Todavía faltan los "@
                + missing + "."@,
            Lang::En => "Subtitles for "@ + fetched + " are there now. Those for "@ + missing
                + " are still missing."@,
        }
    }

    /// What the button fetched, and what it could not.
    pub fn subtitles_fetched_and_missing(self, fetched: &str, missing: &str) -> (r: String)
        ensures
            r@ == self.subtitles_fetched_and_missing_text(fetched@, missing@),
    {
        match self {
            Lang::Es => joined5(
                "Ya están los subtítulos ",
                fetched,
                ". Todavía faltan los ",
                missing,
                ".",
            ),
            Lang::En => joined5(
                "Subtitles for ",
                fetched,
                " are there now. Those for ",
                missing,
                " are still missing.",
            ),
        }
    }

    /// What `allowance_gone_try_tomorrow` says.
    pub open spec fn allowance_gone_try_tomorrow_text(self) -> Seq<char> {
        match self {
            Lang::Es => "El servicio de subtítulos no deja descargar más por hoy"@
                + ". Mañana se puede volver a intentar."@,
            Lang::En => "The subtitle service allows no more downloads today"@
                + ". It can be tried again tomorrow."@,
        }
    }

    /// The subtitle allowance is spent, and when to try again.
    pub fn allowance_gone_try_tomorrow(self) -> (r: String)
        ensures
            r@ == self.allowance_gone_try_tomorrow_text(),
    {
        match self {
            Lang::Es => joined2(self.allowance_gone(), ". Mañana se puede volver a intentar."),
            Lang::En => joined2(self.allowance_gone(), ". It can be tried again tomorrow."),
        }
    }

    /// What `of_episodes` says.
    pub open spec fn of_episodes_text(self, episodes: Seq<u32>) -> Seq<char> {
        match self {
            Lang::Es => of_episodes_es_text(episodes),
            Lang::En => episodes_en_text(episodes),
        }
    }

    /// "del episodio 4", "de los episodios 4 y 7" · "episode 4", "episodes 4 and 7".
    pub fn of_episodes(self, episodes: &[u32]) -> (r: String)
        ensures
            r@ == self.of_episodes_text(episodes@),
    {
        match self {
            Lang::Es => of_episodes_es(episodes),
            Lang::En => episodes_en(episodes),
        }
    }

    /// What `the_episodes` says.
    pub open spec fn the_episodes_text(self, episodes: Seq<u32>) -> Seq<char> {
        match self {
            Lang::Es => if episodes.len() == 1 {
                "el episodio "@ + num(episodes[0] as int)
            } else {
                "los episodios "@ + spoken_list(episodes, " y "@)
            },
            Lang::En => episodes_en_text(episodes),
        }
    }

    /// "el episodio 4", "los episodios 4 y 7" · "episode 4", "episodes 4 and 7".
    pub fn the_episodes(self, episodes: &[u32]) -> (r: String)
        ensures
            r@ == self.the_episodes_text(episodes@),
    {
        match self {
            Lang::Es => if episodes.len() == 1 {
                let only = decimal_of(episodes[0] as u64);
                joined2("el episodio ", only.as_str())
            } else {
                let list = list_es(episodes);
                joined2("los episodios ", list.as_str())
            },
            Lang::En => episodes_en(episodes),
        }
    }

    /// What `of_count_episodes` says.
    pub open spec fn of_count_episodes_text(self, count: usize) -> Seq<char> {
        match self {
            Lang::Es => "de "@ + num(count as int) + " episodios"@,
            Lang::En => num(count as int) + " episodes"@,
        }
    }

    /// "de 5 episodios" · "5 episodes".
    pub fn of_count_episodes(self, count: usize) -> (r: String)
        ensures
            r@ == self.of_count_episodes_text(count),
    {
        let said = decimal_of(count as u64);
        match self {
            Lang::Es => joined3("de ", said.as_str(), " episodios"),
            Lang::En => joined2(said.as_str(), " episodes"),
        }
    }

    /// What `count_episodes` says.
    pub open spec fn count_episodes_text(self, count: usize) -> Seq<char> {
        match self {
            Lang::Es => num(count as int) + " episodios"@,
            Lang::En => num(count as int) + " episodes"@,
        }
    }

    /// "5 episodios" · "5 episodes".
    pub fn count_episodes(self, count: usize) -> (r: String)
        ensures
            r@ == self.count_episodes_text(count),
    {
        let said = decimal_of(count as u64);
        match self {
            Lang::Es => joined2(said.as_str(), " episodios"),
            Lang::En => joined2(said.as_str(), " episodes"),
        }
    }

    // --- the supervisor and the composition root ------------------------------------

    /// What `downloader_would_not_start` says.
    pub open spec fn downloader_would_not_start_text(self) -> Seq<char> {
        match self {
            Lang::Es => "No he podido arrancar el descargador. "@ + self.the_log_says_why_text(),
            Lang::En => "I could not start the downloader. "@ + self.the_log_says_why_text(),
        }
    }

    /// The downloader could not be started at all.
    pub fn downloader_would_not_start(self) -> (r: String)
        ensures
            r@ == self.downloader_would_not_start_text(),
    {
        match self {
            Lang::Es => joined2("No he podido arrancar el descargador. ", self.the_log_says_why()),
            Lang::En => joined2("I could not start the downloader. ", self.the_log_says_why()),
        }
    }

    /// What `downloader_closed_at_once` says.
    pub open spec fn downloader_closed_at_once_text(self) -> Seq<char> {
        match self {
            Lang::Es => "El descargador se ha cerrado nada más arrancar. "@
                + self.the_log_says_why_text(),
            Lang::En => "The downloader closed as soon as it started. "@
                + self.the_log_says_why_text(),
        }
    }

    /// The downloader started and closed at once.
    pub fn downloader_closed_at_once(self) -> (r: String)
        ensures
            r@ == self.downloader_closed_at_once_text(),
    {
        match self {
            Lang::Es => joined2(
                "El descargador se ha cerrado nada más arrancar. ",
                self.the_log_says_why(),
            ),
            Lang::En => joined2(
                "The downloader closed as soon as it started. ",
                self.the_log_says_why(),
            ),
        }
    }

    /// What `downloader_never_answered` says.
    pub open spec fn downloader_never_answered_text(self) -> Seq<char> {
        match self {
            Lang::Es => "El descargador no ha arrancado. "@ + self.the_log_says_why_text(),
            Lang::En => "The downloader did not start. "@ + self.the_log_says_why_text(),
        }
    }

    /// The downloader never answered.
    pub fn downloader_never_answered(self) -> (r: String)
        ensures
            r@ == self.downloader_never_answered_text(),
    {
        match self {
            Lang::Es => joined2("El descargador no ha arrancado. ", self.the_log_says_why()),
            Lang::En => joined2("The downloader did not start. ", self.the_log_says_why()),
        }
    }

    /// Where the log says why.
    pub open spec fn the_log_says_why_text(self) -> Seq<char> {
        match self {
            Lang::Es => "En Ajustes, «Abrir el registro» dice por qué."@,
            Lang::En => "In Settings, \"Open the log\" says why."@,
        }
    }

    /// What `could_not_open_it` says.
    pub open spec fn could_not_open_it_text(self, code: i32) -> Seq<char> {
        match self {
            Lang::Es => "El ordenador no ha podido abrirlo (error "@ + signed_decimal(code as int)
                + ")."@,
            Lang::En => "The computer could not open it (error "@ + signed_decimal(code as int)
                + ")."@,
        }
    }

    /// The computer could not open something, with its error code.
    pub fn could_not_open_it(self, code: i32) -> (r: String)
        ensures
            r@ == self.could_not_open_it_text(code),
    {
        let said = signed_decimal_of(code as i64);
        match self {
            Lang::Es => joined3("El ordenador no ha podido abrirlo (error ", said.as_str(), ")."),
            Lang::En => joined3("The computer could not open it (error ", said.as_str(), ")."),
        }
    }
}

impl Lang {
    /// What `code` says.
    pub open spec fn code_text(self) -> Seq<char> {
        match self {
            Lang::Es => "es"@,
            Lang::En => "en"@,
        }
    }

    pub fn code(self) -> (r: &'static str)
        ensures
            r@ == self.code_text(),
    {
        match self {
            Lang::Es => "es",
            Lang::En => "en",
        }
    }

    /// What `downloader_not_answering` says.
    pub open spec fn downloader_not_answering_text(self) -> Seq<char> {
        match self {
            Lang::Es => "El descargador de la aplicación no responde. Cierra la aplicación del todo y vuelve a abrirla."@,
            Lang::En => "The app's downloader is not answering. Close the app completely and open it again."@,
        }
    }

    pub fn downloader_not_answering(self) -> (r: &'static str)
        ensures
            r@ == self.downloader_not_answering_text(),
    {
        match self {
            Lang::Es => "El descargador de la aplicación no responde. Cierra la aplicación del todo y vuelve a abrirla.",
            Lang::En => "The app's downloader is not answering. Close the app completely and open it again.",
        }
    }

    /// What `no_connection` says.
    pub open spec fn no_connection_text(self) -> Seq<char> {
        match self {
            Lang::Es => "No hay conexión. Comprueba que internet funciona y vuelve a probar."@,
            Lang::En => "No connection. Check that the internet works and try again."@,
        }
    }

    pub fn no_connection(self) -> (r: &'static str)
        ensures
            r@ == self.no_connection_text(),
    {
        match self {
            Lang::Es => "No hay conexión. Comprueba que internet funciona y vuelve a probar.",
            Lang::En => "No connection. Check that the internet works and try again.",
        }
    }

    /// What `this_computer_failed` says.
    pub open spec fn this_computer_failed_text(self) -> Seq<char> {
        match self {
            Lang::Es => "Algo ha fallado en este ordenador. Vuelve a probar."@,
            Lang::En => "Something failed on this computer. Try again."@,
        }
    }

    pub fn this_computer_failed(self) -> (r: &'static str)
        ensures
            r@ == self.this_computer_failed_text(),
    {
        match self {
            Lang::Es => "Algo ha fallado en este ordenador. Vuelve a probar.",
            Lang::En => "Something failed on this computer. Try again.",
        }
    }

    /// What `some_site` says.
    pub open spec fn some_site_text(self) -> Seq<char> {
        match self {
            Lang::Es => "Un sitio de internet"@,
            Lang::En => "A site on the internet"@,
        }
    }

    pub fn some_site(self) -> (r: &'static str)
        ensures
            r@ == self.some_site_text(),
    {
        match self {
            Lang::Es => "Un sitio de internet",
            Lang::En => "A site on the internet",
        }
    }

    /// What `server_refused` says.
    pub open spec fn server_refused_text(self) -> Seq<char> {
        match self {
            Lang::Es => "El servidor de descargas ha rechazado el usuario o la contraseña. \
    Hay que revisar los ajustes; en cuanto estén bien, sigo yo solo."@,
            Lang::En => "The download server rejected the user or the password. \
    The settings need looking at; as soon as they are right, I carry on by myself."@,
        }
    }

    pub fn server_refused(self) -> (r: &'static str)
        ensures
            r@ == self.server_refused_text(),
    {
        match self {
            Lang::Es => "El servidor de descargas ha rechazado el usuario o la contraseña. \
    Hay que revisar los ajustes; en cuanto estén bien, sigo yo solo.",
            Lang::En => "The download server rejected the user or the password. \
    The settings need looking at; as soon as they are right, I carry on by myself.",
        }
    }

    /// What `server_unreachable` says.
    pub open spec fn server_unreachable_text(self) -> Seq<char> {
        match self {
            Lang::Es => "No consigo conectarme al servidor de descargas. \
    Puede que ahora mismo no haya internet. Lo sigo intentando yo solo."@,
            Lang::En => "I cannot reach the download server. \
    There may be no internet right now. I keep trying by myself."@,
        }
    }

    pub fn server_unreachable(self) -> (r: &'static str)
        ensures
            r@ == self.server_unreachable_text(),
    {
        match self {
            Lang::Es => "No consigo conectarme al servidor de descargas. \
    Puede que ahora mismo no haya internet. Lo sigo intentando yo solo.",
            Lang::En => "I cannot reach the download server. \
    There may be no internet right now. I keep trying by myself.",
        }
    }

    /// What `gave_up_on_this_copy` says.
    pub open spec fn gave_up_on_this_copy_text(self) -> Seq<char> {
        match self {
            Lang::Es => "Esa copia estaba estropeada, así que la he descartado."@,
            Lang::En => "That copy was broken, so I set it aside."@,
        }
    }

    pub fn gave_up_on_this_copy(self) -> (r: &'static str)
        ensures
            r@ == self.gave_up_on_this_copy_text(),
    {
        match self {
            Lang::Es => "Esa copia estaba estropeada, así que la he descartado.",
            Lang::En => "That copy was broken, so I set it aside.",
        }
    }

    /// What `cancelled` says.
    pub open spec fn cancelled_text(self) -> Seq<char> {
        match self {
            Lang::Es => "Has cancelado la descarga."@,
            Lang::En => "You cancelled the download."@,
        }
    }

    pub fn cancelled(self) -> (r: &'static str)
        ensures
            r@ == self.cancelled_text(),
    {
        match self {
            Lang::Es => "Has cancelado la descarga.",
            Lang::En => "You cancelled the download.",
        }
    }

    /// What `no_working_copy` says.
    pub open spec fn no_working_copy_text(self) -> Seq<char> {
        match self {
            Lang::Es => "Ninguna de las copias que quedan funciona ahora mismo. Vuelve a probar dentro de unos días."@,
            Lang::En => "None of the remaining copies works right now. Try again in a few days."@,
        }
    }

    pub fn no_working_copy(self) -> (r: &'static str)
        ensures
            r@ == self.no_working_copy_text(),
    {
        match self {
            Lang::Es => "Ninguna de las copias que quedan funciona ahora mismo. Vuelve a probar dentro de unos días.",
            Lang::En => "None of the remaining copies works right now. Try again in a few days.",
        }
    }

    /// What `no_indexer_configured` says.
    pub open spec fn no_indexer_configured_text(self) -> Seq<char> {
        match self {
            Lang::Es => "No hay ningún buscador configurado. Hay que rellenar los ajustes primero."@,
            Lang::En => "No indexer is configured. The settings need filling in first."@,
        }
    }

    pub fn no_indexer_configured(self) -> (r: &'static str)
        ensures
            r@ == self.no_indexer_configured_text(),
    {
        match self {
            Lang::Es => "No hay ningún buscador configurado. Hay que rellenar los ajustes primero.",
            Lang::En => "No indexer is configured. The settings need filling in first.",
        }
    }

    /// What `title_gone_from_list` says.
    pub open spec fn title_gone_from_list_text(self) -> Seq<char> {
        match self {
            Lang::Es => "Ese título ya no está en la lista."@,
            Lang::En => "That title is no longer on the list."@,
        }
    }

    pub fn title_gone_from_list(self) -> (r: &'static str)
        ensures
            r@ == self.title_gone_from_list_text(),
    {
        match self {
            Lang::Es => "Ese título ya no está en la lista.",
            Lang::En => "That title is no longer on the list.",
        }
    }

    /// What `season_gone_from_results` says.
    pub open spec fn season_gone_from_results_text(self) -> Seq<char> {
        match self {
            Lang::Es => "Esa temporada ya no está en los resultados."@,
            Lang::En => "That season is no longer in the results."@,
        }
    }

    pub fn season_gone_from_results(self) -> (r: &'static str)
        ensures
            r@ == self.season_gone_from_results_text(),
    {
        match self {
            Lang::Es => "Esa temporada ya no está en los resultados.",
            Lang::En => "That season is no longer in the results.",
        }
    }

    /// What `film_gone_from_results` says.
    pub open spec fn film_gone_from_results_text(self) -> Seq<char> {
        match self {
            Lang::Es => "Esa película ya no está en los resultados."@,
            Lang::En => "That film is no longer in the results."@,
        }
    }

    pub fn film_gone_from_results(self) -> (r: &'static str)
        ensures
            r@ == self.film_gone_from_results_text(),
    {
        match self {
            Lang::Es => "Esa película ya no está en los resultados.",
            Lang::En => "That film is no longer in the results.",
        }
    }

    /// What `film_gone_from_computer` says.
    pub open spec fn film_gone_from_computer_text(self) -> Seq<char> {
        match self {
            Lang::Es => "Esa película ya no está en este ordenador."@,
            Lang::En => "That film is no longer on this computer."@,
        }
    }

    pub fn film_gone_from_computer(self) -> (r: &'static str)
        ensures
            r@ == self.film_gone_from_computer_text(),
    {
        match self {
            Lang::Es => "Esa película ya no está en este ordenador.",
            Lang::En => "That film is no longer on this computer.",
        }
    }

    /// What `too_little_known_for_copies` says.
    pub open spec fn too_little_known_for_copies_text(self) -> Seq<char> {
        match self {
            Lang::Es => "No sé lo suficiente sobre esta película para buscar otras copias."@,
            Lang::En => "I do not know enough about this film to look for other copies."@,
        }
    }

    pub fn too_little_known_for_copies(self) -> (r: &'static str)
        ensures
            r@ == self.too_little_known_for_copies_text(),
    {
        match self {
            Lang::Es => "No sé lo suficiente sobre esta película para buscar otras copias.",
            Lang::En => "I do not know enough about this film to look for other copies.",
        }
    }

    /// What `no_other_copy_found` says.
    pub open spec fn no_other_copy_found_text(self) -> Seq<char> {
        match self {
            Lang::Es => "No he encontrado ninguna otra copia de esta película."@,
            Lang::En => "I have not found any other copy of this film."@,
        }
    }

    pub fn no_other_copy_found(self) -> (r: &'static str)
        ensures
            r@ == self.no_other_copy_found_text(),
    {
        match self {
            Lang::Es => "No he encontrado ninguna otra copia de esta película.",
            Lang::En => "I have not found any other copy of this film.",
        }
    }

    /// What `no_copy_to_download` says.
    pub open spec fn no_copy_to_download_text(self) -> Seq<char> {
        match self {
            Lang::Es => "No hay ninguna copia para descargar."@,
            Lang::En => "There is no copy to download."@,
        }
    }

    pub fn no_copy_to_download(self) -> (r: &'static str)
        ensures
            r@ == self.no_copy_to_download_text(),
    {
        match self {
            Lang::Es => "No hay ninguna copia para descargar.",
            Lang::En => "There is no copy to download.",
        }
    }

    /// What `skipped_to_the_next_copy` says.
    pub open spec fn skipped_to_the_next_copy_text(self) -> Seq<char> {
        match self {
            Lang::Es => "No he podido pedir una de las copias, así que he pasado a la siguiente."@,
            Lang::En => "I could not ask for one of the copies, so I moved on to the next."@,
        }
    }

    pub fn skipped_to_the_next_copy(self) -> (r: &'static str)
        ensures
            r@ == self.skipped_to_the_next_copy_text(),
    {
        match self {
            Lang::Es => "No he podido pedir una de las copias, así que he pasado a la siguiente.",
            Lang::En => "I could not ask for one of the copies, so I moved on to the next.",
        }
    }

    /// What `indexer_gone_from_settings` says.
    pub open spec fn indexer_gone_from_settings_text(self) -> Seq<char> {
        match self {
            Lang::Es => "Ese buscador ya no está en los ajustes."@,
            Lang::En => "That indexer is no longer in the settings."@,
        }
    }

    pub fn indexer_gone_from_settings(self) -> (r: &'static str)
        ensures
            r@ == self.indexer_gone_from_settings_text(),
    {
        match self {
            Lang::Es => "Ese buscador ya no está en los ajustes.",
            Lang::En => "That indexer is no longer in the settings.",
        }
    }

    /// What `download_could_not_start` says.
    pub open spec fn download_could_not_start_text(self) -> Seq<char> {
        match self {
            Lang::Es => "No se ha podido empezar la descarga."@,
            Lang::En => "The download could not be started."@,
        }
    }

    pub fn download_could_not_start(self) -> (r: &'static str)
        ensures
            r@ == self.download_could_not_start_text(),
    {
        match self {
            Lang::Es => "No se ha podido empezar la descarga.",
            Lang::En => "The download could not be started.",
        }
    }

    /// What `server_back_trying_copies` says.
    pub open spec fn server_back_trying_copies_text(self) -> Seq<char> {
        match self {
            Lang::Es => "Ya puedo conectarme otra vez; sigo probando copias."@,
            Lang::En => "I can connect again; I keep trying copies."@,
        }
    }

    pub fn server_back_trying_copies(self) -> (r: &'static str)
        ensures
            r@ == self.server_back_trying_copies_text(),
    {
        match self {
            Lang::Es => "Ya puedo conectarme otra vez; sigo probando copias.",
            Lang::En => "I can connect again; I keep trying copies.",
        }
    }

    /// What `download_vanished` says.
    pub open spec fn download_vanished_text(self) -> Seq<char> {
        match self {
            Lang::Es => "Esa descarga se ha perdido por el camino, así que pruebo con otra copia."@,
            Lang::En => "That download got lost along the way, so I am trying another copy."@,
        }
    }

    pub fn download_vanished(self) -> (r: &'static str)
        ensures
            r@ == self.download_vanished_text(),
    {
        match self {
            Lang::Es => "Esa descarga se ha perdido por el camino, así que pruebo con otra copia.",
            Lang::En => "That download got lost along the way, so I am trying another copy.",
        }
    }

    /// What `carrying_on_with_the_rest` says.
    pub open spec fn carrying_on_with_the_rest_text(self) -> Seq<char> {
        match self {
            Lang::Es => "Sigo con las copias que quedaban."@,
            Lang::En => "Carrying on with the copies that remained."@,
        }
    }

    pub fn carrying_on_with_the_rest(self) -> (r: &'static str)
        ensures
            r@ == self.carrying_on_with_the_rest_text(),
    {
        match self {
            Lang::Es => "Sigo con las copias que quedaban.",
            Lang::En => "Carrying on with the copies that remained.",
        }
    }

    /// What `no_copies_left` says.
    pub open spec fn no_copies_left_text(self) -> Seq<char> {
        match self {
            Lang::Es => "No quedan más copias que probar."@,
            Lang::En => "There are no more copies left to try."@,
        }
    }

    pub fn no_copies_left(self) -> (r: &'static str)
        ensures
            r@ == self.no_copies_left_text(),
    {
        match self {
            Lang::Es => "No quedan más copias que probar.",
            Lang::En => "There are no more copies left to try.",
        }
    }

    /// What `sent_to_the_bin` says.
    pub open spec fn sent_to_the_bin_text(self) -> Seq<char> {
        match self {
            Lang::Es => "La has enviado a la papelera. Desde ahí todavía la puedes recuperar."@,
            Lang::En => "You sent it to the recycle bin. It can still be recovered from there."@,
        }
    }

    pub fn sent_to_the_bin(self) -> (r: &'static str)
        ensures
            r@ == self.sent_to_the_bin_text(),
    {
        match self {
            Lang::Es => "La has enviado a la papelera. Desde ahí todavía la puedes recuperar.",
            Lang::En => "You sent it to the recycle bin. It can still be recovered from there.",
        }
    }

    /// What `episode_gone` says.
    pub open spec fn episode_gone_text(self) -> Seq<char> {
        match self {
            Lang::Es => "Ese episodio ya no está en la carpeta."@,
            Lang::En => "That episode is no longer in the folder."@,
        }
    }

    pub fn episode_gone(self) -> (r: &'static str)
        ensures
            r@ == self.episode_gone_text(),
    {
        match self {
            Lang::Es => "Ese episodio ya no está en la carpeta.",
            Lang::En => "That episode is no longer in the folder.",
        }
    }

    /// What `series_has_no_page` says.
    pub open spec fn series_has_no_page_text(self) -> Seq<char> {
        match self {
            Lang::Es => "Esta serie no tiene ficha."@,
            Lang::En => "This series has no page."@,
        }
    }

    pub fn series_has_no_page(self) -> (r: &'static str)
        ensures
            r@ == self.series_has_no_page_text(),
    {
        match self {
            Lang::Es => "Esta serie no tiene ficha.",
            Lang::En => "This series has no page.",
        }
    }

    /// What `film_has_no_page` says.
    pub open spec fn film_has_no_page_text(self) -> Seq<char> {
        match self {
            Lang::Es => "Esta película no tiene ficha."@,
            Lang::En => "This film has no page."@,
        }
    }

    pub fn film_has_no_page(self) -> (r: &'static str)
        ensures
            r@ == self.film_has_no_page_text(),
    {
        match self {
            Lang::Es => "Esta película no tiene ficha.",
            Lang::En => "This film has no page.",
        }
    }

    /// What `image_from_forgotten_indexer` says.
    pub open spec fn image_from_forgotten_indexer_text(self) -> Seq<char> {
        match self {
            Lang::Es => "Esa imagen viene de un buscador que ya no está en los ajustes."@,
            Lang::En => "That image comes from an indexer no longer in the settings."@,
        }
    }

    pub fn image_from_forgotten_indexer(self) -> (r: &'static str)
        ensures
            r@ == self.image_from_forgotten_indexer_text(),
    {
        match self {
            Lang::Es => "Esa imagen viene de un buscador que ya no está en los ajustes.",
            Lang::En => "That image comes from an indexer no longer in the settings.",
        }
    }

    /// What `original_with_subtitles` says.
    pub open spec fn original_with_subtitles_text(self) -> Seq<char> {
        match self {
            Lang::Es => "Original con subtítulos"@,
            Lang::En => "Original with subtitles"@,
        }
    }

    pub fn original_with_subtitles(self) -> (r: &'static str)
        ensures
            r@ == self.original_with_subtitles_text(),
    {
        match self {
            Lang::Es => "Original con subtítulos",
            Lang::En => "Original with subtitles",
        }
    }

    /// What `language_unknown` says.
    pub open spec fn language_unknown_text(self) -> Seq<char> {
        match self {
            Lang::Es => "Idioma desconocido"@,
            Lang::En => "Language unknown"@,
        }
    }

    pub fn language_unknown(self) -> (r: &'static str)
        ensures
            r@ == self.language_unknown_text(),
    {
        match self {
            Lang::Es => "Idioma desconocido",
            Lang::En => "Language unknown",
        }
    }

    /// What `two_languages` says.
    pub open spec fn two_languages_text(self) -> Seq<char> {
        match self {
            Lang::Es => "Dos idiomas"@,
            Lang::En => "Two languages"@,
        }
    }

    pub fn two_languages(self) -> (r: &'static str)
        ensures
            r@ == self.two_languages_text(),
    {
        match self {
            Lang::Es => "Dos idiomas",
            Lang::En => "Two languages",
        }
    }

    /// What `original_version` says.
    pub open spec fn original_version_text(self) -> Seq<char> {
        match self {
            Lang::Es => "Versión original"@,
            Lang::En => "Original version"@,
        }
    }

    pub fn original_version(self) -> (r: &'static str)
        ensures
            r@ == self.original_version_text(),
    {
        match self {
            Lang::Es => "Versión original",
            Lang::En => "Original version",
        }
    }

    /// What `and_the_next` says.
    pub open spec fn and_the_next_text(self) -> Seq<char> {
        match self {
            Lang::Es => " y "@,
            Lang::En => " and "@,
        }
    }

    pub fn and_the_next(self) -> (r: &'static str)
        ensures
            r@ == self.and_the_next_text(),
    {
        match self {
            Lang::Es => " y ",
            Lang::En => " and ",
        }
    }

    /// What `under_a_minute` says.
    pub open spec fn under_a_minute_text(self) -> Seq<char> {
        match self {
            Lang::Es => "Menos de un minuto"@,
            Lang::En => "Under a minute"@,
        }
    }

    pub fn under_a_minute(self) -> (r: &'static str)
        ensures
            r@ == self.under_a_minute_text(),
    {
        match self {
            Lang::Es => "Menos de un minuto",
            Lang::En => "Under a minute",
        }
    }

    /// What `nothing_downloading` says.
    pub open spec fn nothing_downloading_text(self) -> Seq<char> {
        match self {
            Lang::Es => "No se está descargando nada"@,
            Lang::En => "Nothing is downloading"@,
        }
    }

    pub fn nothing_downloading(self) -> (r: &'static str)
        ensures
            r@ == self.nothing_downloading_text(),
    {
        match self {
            Lang::Es => "No se está descargando nada",
            Lang::En => "Nothing is downloading",
        }
    }

    /// What `keeps_downloading_title` says.
    pub open spec fn keeps_downloading_title_text(self) -> Seq<char> {
        match self {
            Lang::Es => "Mamá Cine sigue descargando"@,
            Lang::En => "Mamá Cine keeps downloading"@,
        }
    }

    pub fn keeps_downloading_title(self) -> (r: &'static str)
        ensures
            r@ == self.keeps_downloading_title_text(),
    {
        match self {
            Lang::Es => "Mamá Cine sigue descargando",
            Lang::En => "Mamá Cine keeps downloading",
        }
    }

    /// What `keeps_downloading_body` says.
    pub open spec fn keeps_downloading_body_text(self) -> Seq<char> {
        match self {
            Lang::Es => "Se queda en el icono pequeño junto al reloj y avisará cuando la película esté lista."@,
            Lang::En => "It stays in the small icon by the clock and will say when the film is ready."@,
        }
    }

    pub fn keeps_downloading_body(self) -> (r: &'static str)
        ensures
            r@ == self.keeps_downloading_body_text(),
    {
        match self {
            Lang::Es => "Se queda en el icono pequeño junto al reloj y avisará cuando la película esté lista.",
            Lang::En => "It stays in the small icon by the clock and will say when the film is ready.",
        }
    }

    /// What `open_the_app` says.
    pub open spec fn open_the_app_text(self) -> Seq<char> {
        match self {
            Lang::Es => "Abrir Mamá Cine"@,
            Lang::En => "Open Mamá Cine"@,
        }
    }

    pub fn open_the_app(self) -> (r: &'static str)
        ensures
            r@ == self.open_the_app_text(),
    {
        match self {
            Lang::Es => "Abrir Mamá Cine",
            Lang::En => "Open Mamá Cine",
        }
    }

    /// What `quit_entirely` says.
    pub open spec fn quit_entirely_text(self) -> Seq<char> {
        match self {
            Lang::Es => "Salir del todo"@,
            Lang::En => "Quit entirely"@,
        }
    }

    pub fn quit_entirely(self) -> (r: &'static str)
        ensures
            r@ == self.quit_entirely_text(),
    {
        match self {
            Lang::Es => "Salir del todo",
            Lang::En => "Quit entirely",
        }
    }

    /// What `allowance_gone` says.
    pub open spec fn allowance_gone_text(self) -> Seq<char> {
        match self {
            Lang::Es => "El servicio de subtítulos no deja descargar más por hoy"@,
            Lang::En => "The subtitle service allows no more downloads today"@,
        }
    }

    pub fn allowance_gone(self) -> (r: &'static str)
        ensures
            r@ == self.allowance_gone_text(),
    {
        match self {
            Lang::Es => "El servicio de subtítulos no deja descargar más por hoy",
            Lang::En => "The subtitle service allows no more downloads today",
        }
    }

    /// What `subtitles_refused` says.
    pub open spec fn subtitles_refused_text(self) -> Seq<char> {
        match self {
            Lang::Es => "Hay subtítulos, pero ahora mismo no se han podido descargar"@,
            Lang::En => "Subtitles exist, but they could not be downloaded right now"@,
        }
    }

    pub fn subtitles_refused(self) -> (r: &'static str)
        ensures
            r@ == self.subtitles_refused_text(),
    {
        match self {
            Lang::Es => "Hay subtítulos, pero ahora mismo no se han podido descargar",
            Lang::En => "Subtitles exist, but they could not be downloaded right now",
        }
    }

    /// What `subtitles_mistimed` says.
    pub open spec fn subtitles_mistimed_text(self) -> Seq<char> {
        match self {
            Lang::Es => "Los subtítulos que hay no son de esta copia"@,
            Lang::En => "The subtitles that exist are not for this copy"@,
        }
    }

    pub fn subtitles_mistimed(self) -> (r: &'static str)
        ensures
            r@ == self.subtitles_mistimed_text(),
    {
        match self {
            Lang::Es => "Los subtítulos que hay no son de esta copia",
            Lang::En => "The subtitles that exist are not for this copy",
        }
    }

    /// What `no_subtitles_for_this_copy` says.
    pub open spec fn no_subtitles_for_this_copy_text(self) -> Seq<char> {
        match self {
            Lang::Es => "No hay subtítulos en español para esta copia"@,
            Lang::En => "There are no subtitles for this copy"@,
        }
    }

    pub fn no_subtitles_for_this_copy(self) -> (r: &'static str)
        ensures
            r@ == self.no_subtitles_for_this_copy_text(),
    {
        match self {
            Lang::Es => "No hay subtítulos en español para esta copia",
            Lang::En => "There are no subtitles for this copy",
        }
    }

    /// What `subtitles_ready` says.
    pub open spec fn subtitles_ready_text(self) -> Seq<char> {
        match self {
            Lang::Es => "Subtítulos en español listos"@,
            Lang::En => "Subtitles ready"@,
        }
    }

    pub fn subtitles_ready(self) -> (r: &'static str)
        ensures
            r@ == self.subtitles_ready_text(),
    {
        match self {
            Lang::Es => "Subtítulos en español listos",
            Lang::En => "Subtitles ready",
        }
    }

    /// What `subtitles_on_every_episode` says.
    pub open spec fn subtitles_on_every_episode_text(self) -> Seq<char> {
        match self {
            Lang::Es => "Subtítulos en español en todos los episodios"@,
            Lang::En => "Subtitles on every episode"@,
        }
    }

    pub fn subtitles_on_every_episode(self) -> (r: &'static str)
        ensures
            r@ == self.subtitles_on_every_episode_text(),
    {
        match self {
            Lang::Es => "Subtítulos en español en todos los episodios",
            Lang::En => "Subtitles on every episode",
        }
    }

    /// What `subtitles_already_there` says.
    pub open spec fn subtitles_already_there_text(self) -> Seq<char> {
        match self {
            Lang::Es => "Ya están los subtítulos en español."@,
            Lang::En => "The subtitles are already there."@,
        }
    }

    pub fn subtitles_already_there(self) -> (r: &'static str)
        ensures
            r@ == self.subtitles_already_there_text(),
    {
        match self {
            Lang::Es => "Ya están los subtítulos en español.",
            Lang::En => "The subtitles are already there.",
        }
    }

    /// What `subtitles_were_already_there` says.
    pub open spec fn subtitles_were_already_there_text(self) -> Seq<char> {
        match self {
            Lang::Es => "Ya estaban los subtítulos en español."@,
            Lang::En => "The subtitles were already there."@,
        }
    }

    pub fn subtitles_were_already_there(self) -> (r: &'static str)
        ensures
            r@ == self.subtitles_were_already_there_text(),
    {
        match self {
            Lang::Es => "Ya estaban los subtítulos en español.",
            Lang::En => "The subtitles were already there.",
        }
    }

    /// What `all_subtitles_already_there` says.
    pub open spec fn all_subtitles_already_there_text(self) -> Seq<char> {
        match self {
            Lang::Es => "Ya estaban todos los subtítulos."@,
            Lang::En => "All the subtitles were already there."@,
        }
    }

    pub fn all_subtitles_already_there(self) -> (r: &'static str)
        ensures
            r@ == self.all_subtitles_already_there_text(),
    {
        match self {
            Lang::Es => "Ya estaban todos los subtítulos.",
            Lang::En => "All the subtitles were already there.",
        }
    }

    /// What `all_subtitles_there_now` says.
    pub open spec fn all_subtitles_there_now_text(self) -> Seq<char> {
        match self {
            Lang::Es => "Ya están todos los subtítulos."@,
            Lang::En => "All the subtitles are there now."@,
        }
    }

    pub fn all_subtitles_there_now(self) -> (r: &'static str)
        ensures
            r@ == self.all_subtitles_there_now_text(),
    {
        match self {
            Lang::Es => "Ya están todos los subtítulos.",
            Lang::En => "All the subtitles are there now.",
        }
    }

    /// What `could_not_search_subtitles` says.
    pub open spec fn could_not_search_subtitles_text(self) -> Seq<char> {
        match self {
            Lang::Es => "No se han podido buscar subtítulos ahora mismo"@,
            Lang::En => "Subtitles could not be searched for right now"@,
        }
    }

    pub fn could_not_search_subtitles(self) -> (r: &'static str)
        ensures
            r@ == self.could_not_search_subtitles_text(),
    {
        match self {
            Lang::Es => "No se han podido buscar subtítulos ahora mismo",
            Lang::En => "Subtitles could not be searched for right now",
        }
    }

    /// What `film_file_missing` says.
    pub open spec fn film_file_missing_text(self) -> Seq<char> {
        match self {
            Lang::Es => "No se encuentra el archivo de la película."@,
            Lang::En => "The film's file cannot be found."@,
        }
    }

    pub fn film_file_missing(self) -> (r: &'static str)
        ensures
            r@ == self.film_file_missing_text(),
    {
        match self {
            Lang::Es => "No se encuentra el archivo de la película.",
            Lang::En => "The film's file cannot be found.",
        }
    }

    /// What `copy_swapped` says.
    pub open spec fn copy_swapped_text(self) -> Seq<char> {
        match self {
            Lang::Es => "He cambiado esta copia por otra. La anterior está en la papelera."@,
            Lang::En => "I swapped this copy for another. The old one is in the recycle bin."@,
        }
    }

    pub fn copy_swapped(self) -> (r: &'static str)
        ensures
            r@ == self.copy_swapped_text(),
    {
        match self {
            Lang::Es => "He cambiado esta copia por otra. La anterior está en la papelera.",
            Lang::En => "I swapped this copy for another. The old one is in the recycle bin.",
        }
    }

    /// What `ready_series_note` says.
    pub open spec fn ready_series_note_text(self) -> Seq<char> {
        match self {
            Lang::Es => "Ya está lista. Ábrela para ver los episodios."@,
            Lang::En => "It is ready. Open it to see the episodes."@,
        }
    }

    pub fn ready_series_note(self) -> (r: &'static str)
        ensures
            r@ == self.ready_series_note_text(),
    {
        match self {
            Lang::Es => "Ya está lista. Ábrela para ver los episodios.",
            Lang::En => "It is ready. Open it to see the episodes.",
        }
    }

    /// What `ready_film_note` says.
    pub open spec fn ready_film_note_text(self) -> Seq<char> {
        match self {
            Lang::Es => "Ya está lista para ver."@,
            Lang::En => "It is ready to watch."@,
        }
    }

    pub fn ready_film_note(self) -> (r: &'static str)
        ensures
            r@ == self.ready_film_note_text(),
    {
        match self {
            Lang::Es => "Ya está lista para ver.",
            Lang::En => "It is ready to watch.",
        }
    }

    /// What `ready_series_notification` says.
    pub open spec fn ready_series_notification_text(self) -> Seq<char> {
        match self {
            Lang::Es => "Ya está lista. Abre Mamá Cine para ver los episodios."@,
            Lang::En => "It is ready. Open Mamá Cine to see the episodes."@,
        }
    }

    pub fn ready_series_notification(self) -> (r: &'static str)
        ensures
            r@ == self.ready_series_notification_text(),
    {
        match self {
            Lang::Es => "Ya está lista. Abre Mamá Cine para ver los episodios.",
            Lang::En => "It is ready. Open Mamá Cine to see the episodes.",
        }
    }

    /// What `ready_film_notification` says.
    pub open spec fn ready_film_notification_text(self) -> Seq<char> {
        match self {
            Lang::Es => "Ya está lista para ver en Mamá Cine."@,
            Lang::En => "It is ready to watch in Mamá Cine."@,
        }
    }

    pub fn ready_film_notification(self) -> (r: &'static str)
        ensures
            r@ == self.ready_film_notification_text(),
    {
        match self {
            Lang::Es => "Ya está lista para ver en Mamá Cine.",
            Lang::En => "It is ready to watch in Mamá Cine.",
        }
    }

    pub fn the_log_says_why(self) -> (r: &'static str)
        ensures
            r@ == self.the_log_says_why_text(),
    {
        match self {
            Lang::Es => "En Ajustes, «Abrir el registro» dice por qué.",
            Lang::En => "In Settings, \"Open the log\" says why.",
        }
    }

    /// What `still_starting` says.
    pub open spec fn still_starting_text(self) -> Seq<char> {
        match self {
            Lang::Es => "La aplicación no ha terminado de arrancar."@,
            Lang::En => "The app has not finished starting."@,
        }
    }

    pub fn still_starting(self) -> (r: &'static str)
        ensures
            r@ == self.still_starting_text(),
    {
        match self {
            Lang::Es => "La aplicación no ha terminado de arrancar.",
            Lang::En => "The app has not finished starting.",
        }
    }

    /// What `where_to_save_films` says.
    pub open spec fn where_to_save_films_text(self) -> Seq<char> {
        match self {
            Lang::Es => "Dónde guardar las películas"@,
            Lang::En => "Where to save the films"@,
        }
    }

    pub fn where_to_save_films(self) -> (r: &'static str)
        ensures
            r@ == self.where_to_save_films_text(),
    {
        match self {
            Lang::Es => "Dónde guardar las películas",
            Lang::En => "Where to save the films",
        }
    }

    /// What `settings_from_a_newer_app` says.
    pub open spec fn settings_from_a_newer_app_text(self) -> Seq<char> {
        match self {
            Lang::Es => "Los ajustes son de una versión más nueva de la aplicación. Hay que actualizarla."@,
            Lang::En => "The settings are from a newer version of the app. It needs updating."@,
        }
    }

    pub fn settings_from_a_newer_app(self) -> (r: &'static str)
        ensures
            r@ == self.settings_from_a_newer_app_text(),
    {
        match self {
            Lang::Es => "Los ajustes son de una versión más nueva de la aplicación. Hay que actualizarla.",
            Lang::En => "The settings are from a newer version of the app. It needs updating.",
        }
    }

    /// What `library_from_a_newer_app` says.
    pub open spec fn library_from_a_newer_app_text(self) -> Seq<char> {
        match self {
            Lang::Es => "Los datos de las películas son de una versión más nueva de la \
                         aplicación. Hay que actualizar la aplicación para seguir."@,
            Lang::En => "The film records are from a newer version of the app. \
                         The app needs updating to continue."@,
        }
    }

    pub fn library_from_a_newer_app(self) -> (r: &'static str)
        ensures
            r@ == self.library_from_a_newer_app_text(),
    {
        match self {
            Lang::Es => "Los datos de las películas son de una versión más nueva de la \
                         aplicación. Hay que actualizar la aplicación para seguir.",
            Lang::En => "The film records are from a newer version of the app. \
                         The app needs updating to continue.",
        }
    }

    /// What `update_available_body` says.
    pub open spec fn update_available_body_text(self) -> Seq<char> {
        match self {
            Lang::Es => "Abre Mamá Cine para instalarla."@,
            Lang::En => "Open Mamá Cine to install it."@,
        }
    }

    pub fn update_available_body(self) -> (r: &'static str)
        ensures
            r@ == self.update_available_body_text(),
    {
        match self {
            Lang::Es => "Abre Mamá Cine para instalarla.",
            Lang::En => "Open Mamá Cine to install it.",
        }
    }

    /// What `update_installed_body` says.
    pub open spec fn update_installed_body_text(self) -> Seq<char> {
        match self {
            Lang::Es => "Se estrenará la próxima vez que abras la aplicación."@,
            Lang::En => "It starts the next time you open the app."@,
        }
    }

    pub fn update_installed_body(self) -> (r: &'static str)
        ensures
            r@ == self.update_installed_body_text(),
    {
        match self {
            Lang::Es => "Se estrenará la próxima vez que abras la aplicación.",
            Lang::En => "It starts the next time you open the app.",
        }
    }

    /// What `in_the_menu_title` says.
    pub open spec fn in_the_menu_title_text(self) -> Seq<char> {
        match self {
            Lang::Es => "Mamá Cine ya está en el menú de aplicaciones"@,
            Lang::En => "Mamá Cine is now in the applications menu"@,
        }
    }

    pub fn in_the_menu_title(self) -> (r: &'static str)
        ensures
            r@ == self.in_the_menu_title_text(),
    {
        match self {
            Lang::Es => "Mamá Cine ya está en el menú de aplicaciones",
            Lang::En => "Mamá Cine is now in the applications menu",
        }
    }

    /// What `in_the_menu_body` says.
    pub open spec fn in_the_menu_body_text(self) -> Seq<char> {
        match self {
            Lang::Es => "A partir de ahora se abre desde ahí. El archivo descargado ya no hace falta."@,
            Lang::En => "From now on it opens from there. The downloaded file is no longer needed."@,
        }
    }

    pub fn in_the_menu_body(self) -> (r: &'static str)
        ensures
            r@ == self.in_the_menu_body_text(),
    {
        match self {
            Lang::Es => "A partir de ahora se abre desde ahí. El archivo descargado ya no hace falta.",
            Lang::En => "From now on it opens from there. The downloaded file is no longer needed.",
        }
    }

    /// What `check_no_indexer` says.
    pub open spec fn check_no_indexer_text(self) -> Seq<char> {
        match self {
            Lang::Es => "Buscadores: no hay ninguno configurado."@,
            Lang::En => "Indexers: none configured."@,
        }
    }

    pub fn check_no_indexer(self) -> (r: &'static str)
        ensures
            r@ == self.check_no_indexer_text(),
    {
        match self {
            Lang::Es => "Buscadores: no hay ninguno configurado.",
            Lang::En => "Indexers: none configured.",
        }
    }

    /// What `check_indexer_fallback_name` says.
    pub open spec fn check_indexer_fallback_name_text(self) -> Seq<char> {
        match self {
            Lang::Es => "Buscador"@,
            Lang::En => "Indexer"@,
        }
    }

    pub fn check_indexer_fallback_name(self) -> (r: &'static str)
        ensures
            r@ == self.check_indexer_fallback_name_text(),
    {
        match self {
            Lang::Es => "Buscador",
            Lang::En => "Indexer",
        }
    }

    /// What `check_news_missing_host` says.
    pub open spec fn check_news_missing_host_text(self) -> Seq<char> {
        match self {
            Lang::Es => "Servidor de descargas: falta la dirección."@,
            Lang::En => "Download server: the address is missing."@,
        }
    }

    pub fn check_news_missing_host(self) -> (r: &'static str)
        ensures
            r@ == self.check_news_missing_host_text(),
    {
        match self {
            Lang::Es => "Servidor de descargas: falta la dirección.",
            Lang::En => "Download server: the address is missing.",
        }
    }

    /// What `check_news_works` says.
    pub open spec fn check_news_works_text(self) -> Seq<char> {
        match self {
            Lang::Es => "Servidor de descargas: funciona."@,
            Lang::En => "Download server: works."@,
        }
    }

    pub fn check_news_works(self) -> (r: &'static str)
        ensures
            r@ == self.check_news_works_text(),
    {
        match self {
            Lang::Es => "Servidor de descargas: funciona.",
            Lang::En => "Download server: works.",
        }
    }

    /// What `check_news_refused` says.
    pub open spec fn check_news_refused_text(self) -> Seq<char> {
        match self {
            Lang::Es => "Servidor de descargas: ha rechazado el usuario o la contraseña."@,
            Lang::En => "Download server: it rejected the user or the password."@,
        }
    }

    pub fn check_news_refused(self) -> (r: &'static str)
        ensures
            r@ == self.check_news_refused_text(),
    {
        match self {
            Lang::Es => "Servidor de descargas: ha rechazado el usuario o la contraseña.",
            Lang::En => "Download server: it rejected the user or the password.",
        }
    }

    /// What `check_news_unreachable` says.
    pub open spec fn check_news_unreachable_text(self) -> Seq<char> {
        match self {
            Lang::Es => "Servidor de descargas: no se puede conectar. Revisa la dirección, o puede que no haya internet."@,
            Lang::En => "Download server: cannot connect. Check the address, or there may be no internet."@,
        }
    }

    pub fn check_news_unreachable(self) -> (r: &'static str)
        ensures
            r@ == self.check_news_unreachable_text(),
    {
        match self {
            Lang::Es => "Servidor de descargas: no se puede conectar. Revisa la dirección, o puede que no haya internet.",
            Lang::En => "Download server: cannot connect. Check the address, or there may be no internet.",
        }
    }

    /// What `check_news_unknown` says.
    pub open spec fn check_news_unknown_text(self) -> Seq<char> {
        match self {
            Lang::Es => "Servidor de descargas: no se ha podido comprobar ahora mismo."@,
            Lang::En => "Download server: it could not be checked right now."@,
        }
    }

    pub fn check_news_unknown(self) -> (r: &'static str)
        ensures
            r@ == self.check_news_unknown_text(),
    {
        match self {
            Lang::Es => "Servidor de descargas: no se ha podido comprobar ahora mismo.",
            Lang::En => "Download server: it could not be checked right now.",
        }
    }

    /// What `check_metadata_works` says.
    pub open spec fn check_metadata_works_text(self) -> Seq<char> {
        match self {
            Lang::Es => "Fichas de películas: funciona."@,
            Lang::En => "Film pages: works."@,
        }
    }

    pub fn check_metadata_works(self) -> (r: &'static str)
        ensures
            r@ == self.check_metadata_works_text(),
    {
        match self {
            Lang::Es => "Fichas de películas: funciona.",
            Lang::En => "Film pages: works.",
        }
    }

    /// What `check_subtitles_works` says.
    pub open spec fn check_subtitles_works_text(self) -> Seq<char> {
        match self {
            Lang::Es => "Subtítulos: funciona."@,
            Lang::En => "Subtitles: works."@,
        }
    }

    pub fn check_subtitles_works(self) -> (r: &'static str)
        ensures
            r@ == self.check_subtitles_works_text(),
    {
        match self {
            Lang::Es => "Subtítulos: funciona.",
            Lang::En => "Subtitles: works.",
        }
    }

    /// What `check_subtitles_no_account` says.
    pub open spec fn check_subtitles_no_account_text(self) -> Seq<char> {
        match self {
            Lang::Es => "Subtítulos: falta el usuario o la contraseña, así que no se pueden descargar."@,
            Lang::En => "Subtitles: the user or the password is missing, so nothing can be downloaded."@,
        }
    }

    pub fn check_subtitles_no_account(self) -> (r: &'static str)
        ensures
            r@ == self.check_subtitles_no_account_text(),
    {
        match self {
            Lang::Es => "Subtítulos: falta el usuario o la contraseña, así que no se pueden descargar.",
            Lang::En => "Subtitles: the user or the password is missing, so nothing can be downloaded.",
        }
    }

    /// What `check_subtitles_unconfigured` says.
    pub open spec fn check_subtitles_unconfigured_text(self) -> Seq<char> {
        match self {
            Lang::Es => "Subtítulos: sin configurar. La aplicación funciona igual."@,
            Lang::En => "Subtitles: not configured. The app works all the same."@,
        }
    }

    pub fn check_subtitles_unconfigured(self) -> (r: &'static str)
        ensures
            r@ == self.check_subtitles_unconfigured_text(),
    {
        match self {
            Lang::Es => "Subtítulos: sin configurar. La aplicación funciona igual.",
            Lang::En => "Subtitles: not configured. The app works all the same.",
        }
    }

    /// What `cannot_reach` says.
    pub open spec fn cannot_reach_text(self, role: Seq<char>) -> Seq<char> {
        match self {
            Lang::Es => "No consigo conectarme con "@ + role + ". Comprueba que internet funciona."@,
            Lang::En => "I cannot reach "@ + role + ". Check that the internet works."@,
        }
    }

    pub fn cannot_reach(self, role: &str) -> (r: String)
        ensures
            r@ == self.cannot_reach_text(role@),
    {
        match self {
            Lang::Es => joined3("No consigo conectarme con ", role, ". Comprueba que internet funciona."),
            Lang::En => joined3("I cannot reach ", role, ". Check that the internet works."),
        }
    }

    /// What `rejected_the_key` says.
    pub open spec fn rejected_the_key_text(self, subject: Seq<char>) -> Seq<char> {
        match self {
            Lang::Es => ""@ + subject + " ha rechazado la clave. Hay que revisar los ajustes."@,
            Lang::En => ""@ + subject + " rejected the key. The settings need looking at."@,
        }
    }

    pub fn rejected_the_key(self, subject: &str) -> (r: String)
        ensures
            r@ == self.rejected_the_key_text(subject@),
    {
        match self {
            Lang::Es => joined3("", subject, " ha rechazado la clave. Hay que revisar los ajustes."),
            Lang::En => joined3("", subject, " rejected the key. The settings need looking at."),
        }
    }

    /// What `too_many_requests` says.
    pub open spec fn too_many_requests_text(self, subject: Seq<char>) -> Seq<char> {
        match self {
            Lang::Es => ""@ + subject + " dice que hemos pedido demasiadas cosas por hoy. Vuelve a probar mañana."@,
            Lang::En => ""@ + subject + " says we have asked for too much today. Try again tomorrow."@,
        }
    }

    pub fn too_many_requests(self, subject: &str) -> (r: String)
        ensures
            r@ == self.too_many_requests_text(subject@),
    {
        match self {
            Lang::Es => joined3("", subject, " dice que hemos pedido demasiadas cosas por hoy. Vuelve a probar mañana."),
            Lang::En => joined3("", subject, " says we have asked for too much today. Try again tomorrow."),
        }
    }

    /// What `refused_the_request` says.
    pub open spec fn refused_the_request_text(self, subject: Seq<char>) -> Seq<char> {
        match self {
            Lang::Es => ""@ + subject + " no ha aceptado lo que le he pedido. Vuelve a probar dentro de un rato."@,
            Lang::En => ""@ + subject + " did not accept what I asked for. Try again in a while."@,
        }
    }

    pub fn refused_the_request(self, subject: &str) -> (r: String)
        ensures
            r@ == self.refused_the_request_text(subject@),
    {
        match self {
            Lang::Es => joined3("", subject, " no ha aceptado lo que le he pedido. Vuelve a probar dentro de un rato."),
            Lang::En => joined3("", subject, " did not accept what I asked for. Try again in a while."),
        }
    }

    /// What `answered_nonsense` says.
    pub open spec fn answered_nonsense_text(self, subject: Seq<char>) -> Seq<char> {
        match self {
            Lang::Es => ""@ + subject + " ha contestado algo que no he entendido. Vuelve a probar dentro de un rato."@,
            Lang::En => ""@ + subject + " answered something I did not understand. Try again in a while."@,
        }
    }

    pub fn answered_nonsense(self, subject: &str) -> (r: String)
        ensures
            r@ == self.answered_nonsense_text(subject@),
    {
        match self {
            Lang::Es => joined3("", subject, " ha contestado algo que no he entendido. Vuelve a probar dentro de un rato."),
            Lang::En => joined3("", subject, " answered something I did not understand. Try again in a while."),
        }
    }

    /// What `copy_discarded_for_space` says.
    pub open spec fn copy_discarded_for_space_text(self, size: Seq<char>) -> Seq<char> {
        match self {
            Lang::Es => "Una copia de "@ + size + " no cabe en el disco, así que la he descartado."@,
            Lang::En => "A "@ + size + " copy does not fit on the disk, so I set it aside."@,
        }
    }

    pub fn copy_discarded_for_space(self, size: &str) -> (r: String)
        ensures
            r@ == self.copy_discarded_for_space_text(size@),
    {
        match self {
            Lang::Es => joined3("Una copia de ", size, " no cabe en el disco, así que la he descartado."),
            Lang::En => joined3("A ", size, " copy does not fit on the disk, so I set it aside."),
        }
    }

    /// What `with_subtitles` says.
    pub open spec fn with_subtitles_text(self, languages: Seq<char>) -> Seq<char> {
        match self {
            Lang::Es => ""@ + languages + ", con subtítulos"@,
            Lang::En => ""@ + languages + ", with subtitles"@,
        }
    }

    pub fn with_subtitles(self, languages: &str) -> (r: String)
        ensures
            r@ == self.with_subtitles_text(languages@),
    {
        match self {
            Lang::Es => joined3("", languages, ", con subtítulos"),
            Lang::En => joined3("", languages, ", with subtitles"),
        }
    }

    /// What `no_subtitles_found_for` says.
    pub open spec fn no_subtitles_found_for_text(self, episodes: Seq<char>) -> Seq<char> {
        match self {
            Lang::Es => "No hay subtítulos en español para "@ + episodes + ". Puede que aparezcan más adelante."@,
            Lang::En => "There are no subtitles for "@ + episodes + ". They may appear later on."@,
        }
    }

    pub fn no_subtitles_found_for(self, episodes: &str) -> (r: String)
        ensures
            r@ == self.no_subtitles_found_for_text(episodes@),
    {
        match self {
            Lang::Es => joined3("No hay subtítulos en español para ", episodes, ". Puede que aparezcan más adelante."),
            Lang::En => joined3("There are no subtitles for ", episodes, ". They may appear later on."),
        }
    }

    /// What `saved_but` says.
    pub open spec fn saved_but_text(self, problem: Seq<char>) -> Seq<char> {
        match self {
            Lang::Es => "Se ha guardado, pero hay un problema: "@ + problem + ""@,
            Lang::En => "Saved, but there is a problem: "@ + problem + ""@,
        }
    }

    pub fn saved_but(self, problem: &str) -> (r: String)
        ensures
            r@ == self.saved_but_text(problem@),
    {
        match self {
            Lang::Es => joined3("Se ha guardado, pero hay un problema: ", problem, ""),
            Lang::En => joined3("Saved, but there is a problem: ", problem, ""),
        }
    }

    /// What `update_available_title` says.
    pub open spec fn update_available_title_text(self, version: Seq<char>) -> Seq<char> {
        match self {
            Lang::Es => "Mamá Cine "@ + version + " ya está disponible"@,
            Lang::En => "Mamá Cine "@ + version + " is available"@,
        }
    }

    pub fn update_available_title(self, version: &str) -> (r: String)
        ensures
            r@ == self.update_available_title_text(version@),
    {
        match self {
            Lang::Es => joined3("Mamá Cine ", version, " ya está disponible"),
            Lang::En => joined3("Mamá Cine ", version, " is available"),
        }
    }

    /// What `update_installed_title` says.
    pub open spec fn update_installed_title_text(self, version: Seq<char>) -> Seq<char> {
        match self {
            Lang::Es => "Mamá Cine "@ + version + " ya está instalada"@,
            Lang::En => "Mamá Cine "@ + version + " is installed"@,
        }
    }

    pub fn update_installed_title(self, version: &str) -> (r: String)
        ensures
            r@ == self.update_installed_title_text(version@),
    {
        match self {
            Lang::Es => joined3("Mamá Cine ", version, " ya está instalada"),
            Lang::En => joined3("Mamá Cine ", version, " is installed"),
        }
    }

    /// What `check_works` says.
    pub open spec fn check_works_text(self, name: Seq<char>) -> Seq<char> {
        match self {
            Lang::Es => ""@ + name + ": funciona."@,
            Lang::En => ""@ + name + ": works."@,
        }
    }

    pub fn check_works(self, name: &str) -> (r: String)
        ensures
            r@ == self.check_works_text(name@),
    {
        match self {
            Lang::Es => joined3("", name, ": funciona."),
            Lang::En => joined3("", name, ": works."),
        }
    }

    /// What `check_news_prefix` says.
    pub open spec fn check_news_prefix_text(self, problem: Seq<char>) -> Seq<char> {
        match self {
            Lang::Es => "Servidor de descargas: "@ + problem + ""@,
            Lang::En => "Download server: "@ + problem + ""@,
        }
    }

    pub fn check_news_prefix(self, problem: &str) -> (r: String)
        ensures
            r@ == self.check_news_prefix_text(problem@),
    {
        match self {
            Lang::Es => joined3("Servidor de descargas: ", problem, ""),
            Lang::En => joined3("Download server: ", problem, ""),
        }
    }

    /// What `check_metadata_prefix` says.
    pub open spec fn check_metadata_prefix_text(self, said: Seq<char>) -> Seq<char> {
        match self {
            Lang::Es => "Fichas de películas: "@ + said + ""@,
            Lang::En => "Film pages: "@ + said + ""@,
        }
    }

    pub fn check_metadata_prefix(self, said: &str) -> (r: String)
        ensures
            r@ == self.check_metadata_prefix_text(said@),
    {
        match self {
            Lang::Es => joined3("Fichas de películas: ", said, ""),
            Lang::En => joined3("Film pages: ", said, ""),
        }
    }

    /// What `check_subtitles_prefix` says.
    pub open spec fn check_subtitles_prefix_text(self, said: Seq<char>) -> Seq<char> {
        match self {
            Lang::Es => "Subtítulos: "@ + said + ""@,
            Lang::En => "Subtitles: "@ + said + ""@,
        }
    }

    pub fn check_subtitles_prefix(self, said: &str) -> (r: String)
        ensures
            r@ == self.check_subtitles_prefix_text(said@),
    {
        match self {
            Lang::Es => joined3("Subtítulos: ", said, ""),
            Lang::En => joined3("Subtitles: ", said, ""),
        }
    }
}

impl Lang {
    /// What the tray says a download is doing, given the status word the window is given and
    /// how far along it is, already rounded to a whole percent ("40").
    pub open spec fn tray_status_text(self, status: Seq<char>, percent: Seq<char>) -> Seq<char> {
        match self {
            Lang::Es => if status == "paused"@ {
                "En pausa ("@ + percent + " %)"@
            } else if status == "queued"@ {
                "Empezando la descarga"@
            } else if status == "verifying"@ {
                "Comprobando que está completa"@
            } else if status == "repairing"@ {
                "Arreglando lo que falta"@
            } else if status == "unpacking"@ {
                "Casi lista"@
            } else if status == "moving"@ {
                "Guardando"@
            } else {
                "Últimos detalles"@
            },
            Lang::En => if status == "paused"@ {
                "Paused ("@ + percent + " %)"@
            } else if status == "queued"@ {
                "Starting the download"@
            } else if status == "verifying"@ {
                "Checking it is complete"@
            } else if status == "repairing"@ {
                "Repairing what is missing"@
            } else if status == "unpacking"@ {
                "Nearly ready"@
            } else if status == "moving"@ {
                "Saving"@
            } else {
                "Last details"@
            },
        }
    }

    /// What the tray says a download is doing.
    pub fn tray_status(self, status: &str, percent: &str) -> (r: String)
        ensures
            r@ == self.tray_status_text(status@, percent@),
    {
        let paused = same_text(status, "paused");
        if paused {
            let opening = match self {
                Lang::Es => "En pausa (",
                Lang::En => "Paused (",
            };
            return joined3(opening, percent, " %)");
        }
        let words = match self {
            Lang::Es => if same_text(status, "queued") {
                "Empezando la descarga"
            } else if same_text(status, "verifying") {
                "Comprobando que está completa"
            } else if same_text(status, "repairing") {
                "Arreglando lo que falta"
            } else if same_text(status, "unpacking") {
                "Casi lista"
            } else if same_text(status, "moving") {
                "Guardando"
            } else {
                "Últimos detalles"
            },
            Lang::En => if same_text(status, "queued") {
                "Starting the download"
            } else if same_text(status, "verifying") {
                "Checking it is complete"
            } else if same_text(status, "repairing") {
                "Repairing what is missing"
            } else if same_text(status, "unpacking") {
                "Nearly ready"
            } else if same_text(status, "moving") {
                "Saving"
            } else {
                "Last details"
            },
        };
        String::from_str(words)
    }
}

/// A language answers to its own code, and no other language does.
pub proof fn law_a_language_answers_to_its_own_code(lang: Lang)
    ensures
        lang_of_code(lang.code_text()) == Some(lang),
{
    reveal_strlit("es");
    reveal_strlit("en");
    assert("en"@[1] != "es"@[1]);
}

/// A language code that has a noun in one language of the interface has one in every language.
pub proof fn law_every_named_language_is_named_in_every_language(one: Lang, other: Lang, code: Seq<char>)
    ensures
        noun_in(one, code) is Some <==> noun_in(other, code) is Some,
{
}


proof fn lemma_ascii_lowered_stays(s: Seq<char>)
    requires
        all_ascii(s),
    ensures
        all_ascii(spec_lowercase(s)),
        spec_lowercase(spec_lowercase(s)) == spec_lowercase(s),
{
    let l = s.map_values(|c: char| ascii_lower_char(c));
    assert(all_ascii(l));
    assert(l.map_values(|c: char| ascii_lower_char(c)) =~= l);
}

proof fn lemma_named_codes_are_lowercase(code: Seq<char>)
    requires
        noun_es(code) is Some,
    ensures
        all_ascii(code),
        spec_lowercase(code) == code,
{
        reveal_strlit("es");
        reveal_strlit("es-419");
        reveal_strlit("en");
        reveal_strlit("it");
        reveal_strlit("fr");
        reveal_strlit("de");
        reveal_strlit("nl");
        reveal_strlit("pl");
        reveal_strlit("cs");
        reveal_strlit("hu");
        reveal_strlit("ru");
        reveal_strlit("tr");
        reveal_strlit("hi");
        reveal_strlit("ko");
        reveal_strlit("ja");
        reveal_strlit("pt");
        reveal_strlit("pt-br");
        reveal_strlit("nordic");
    assert(all_ascii(code));
    assert(code.map_values(|c: char| ascii_lower_char(c)) =~= code);
}

/// A language code names the same language whether or not it is lowercased once more: for
/// every code that names a language, and for every code written in ASCII.
pub proof fn law_a_lowercased_code_names_the_same_language(lang: Lang, code: Seq<char>)
    requires
        noun_in(lang, spec_lowercase(code)) is Some || all_ascii(code),
    ensures
        noun_in(lang, spec_lowercase(spec_lowercase(code))) == noun_in(lang, spec_lowercase(code)),
{
    if all_ascii(code) {
        lemma_ascii_lowered_stays(code);
    } else {
        law_every_named_language_is_named_in_every_language(lang, Lang::Es, spec_lowercase(code));
        lemma_named_codes_are_lowercase(spec_lowercase(code));
    }
}

} // verus!
