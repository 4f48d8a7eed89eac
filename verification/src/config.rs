//! Reading the web player's pages: where the script bundle lies, which app
//! id it names, and which secrets it hides.

use crate::outside::{
    base64_decode, base64_decoded, group_views, match_views, regex_captures, regex_found,
    upper_case, upper_case_of, utf8_text,
};
use crate::text::joined;
use vstd::prelude::*;
use vstd::string::{StrSliceExecFns, StringExecFns, StringSliceAdditionalSpecFns};
use vstd::utf8::{decode_utf8, encode_utf8, is_char_boundary, valid_utf8};

verus! {

/// The address of the web player.
pub const PLAY_URL: &'static str = "https://play.qobuz.com";

/// Finds the path of the script bundle in the login page.
pub const BUNDLE_REGEX: &'static str =
    r#"<script src="(/resources/\d+\.\d+\.\d+-[a-z]\d{3}/bundle\.js)"></script>"#;

/// Finds the app id in the bundle.
pub const APP_REGEX: &'static str =
    r#"cluster:"eu"}\):\(n.qobuzapi=\{app_id:"(?P<app_id>\d{9})",app_secret:"\w{32}",base_port:"80",base_url:"https://www\.qobuz\.com",base_method:"/api\.json/0\.2/"},n"#;

/// Finds the seeds in the bundle, each with its time zone.
pub const SEED_REGEX: &'static str =
    r#"[a-z]\.initialSeed\("(?P<seed>[\w=]+)",window\.utimezone\.(?P<timezone>[a-z]+)\)"#;

/// What stands before the time zone in the pattern that finds the two other
/// parts of a secret.
pub const INFO_REGEX_HEAD: &'static str = r#"name:"\w+/(?P<timezone>"#;

/// What stands behind the time zone in that pattern.
pub const INFO_REGEX_TAIL: &'static str =
    r#"([a-z]?))",info:"(?P<info>[\w=]+)",extras:"(?P<extras>[\w=]+)""#;

/// How many bytes are cut off the end of the three parts of a secret before
/// they are decoded.
pub const SECRET_PADDING: usize = 44;

/// Why the pages of the web player could not be read.
#[derive(Debug, Clone, Copy, PartialEq, Eq, Structural)]
pub enum ConfigError {
    /// A pattern could not be compiled.
    BadPattern,
    /// The parts of a secret are too short, or what is left of them is not
    /// base64 for UTF-8 text.
    BadSecret,
    /// The bundle names no app id.
    NoAppId,
}

/// A secret with the time zone that it was found under.
pub type Secret = (Seq<char>, Seq<char>);

/// The text of a group of a match; empty where the match has no such group
/// or the group took no part.
pub open spec fn group_text(groups: Seq<Option<Seq<char>>>, index: int) -> Seq<char> {
    if 0 <= index < groups.len() {
        match groups[index] {
            Some(text) => text,
            None => Seq::empty(),
        }
    } else {
        Seq::empty()
    }
}

/// The text of a group of the first match, where there is a match.
pub open spec fn first_group_text(found: Seq<Seq<Option<Seq<char>>>>, index: int) -> Option<
    Seq<char>,
> {
    if found.len() > 0 {
        Some(group_text(found[0], index))
    } else {
        None
    }
}

/// The text with its first character in upper case.
pub open spec fn capitalized(text: Seq<char>) -> Seq<char> {
    if text.len() == 0 {
        text
    } else {
        upper_case(text[0]) + text.subrange(1, text.len() as int)
    }
}

/// The pattern that finds the two other parts of the secrets of a time zone.
pub open spec fn info_pattern_text(timezone: Seq<char>) -> Seq<char> {
    INFO_REGEX_HEAD@ + capitalized(timezone) + INFO_REGEX_TAIL@
}

/// The secret that three parts stand for: the parts in a row without their
/// last 44 bytes, decoded as base64, and that read as UTF-8. Nothing where
/// there are fewer than 44 bytes, where the cut would split a character, or
/// where one of the two decodings fails.
pub open spec fn secret_text(seed: Seq<char>, info: Seq<char>, extras: Seq<char>) -> Option<
    Seq<char>,
> {
    let bytes = encode_utf8(seed + info + extras);
    if bytes.len() < SECRET_PADDING || !is_char_boundary(bytes, bytes.len() - SECRET_PADDING) {
        None
    } else {
        match base64_decoded(bytes.subrange(0, bytes.len() - SECRET_PADDING)) {
            Some(decoded) => if valid_utf8(decoded) {
                Some(decode_utf8(decoded))
            } else {
                None
            },
            None => None,
        }
    }
}

/// The front of three parts in a row, without their last 44 bytes; nothing
/// where there are fewer than 44 bytes or the cut would split a character.
pub open spec fn secret_front(seed: Seq<char>, info: Seq<char>, extras: Seq<char>) -> Option<
    Seq<u8>,
> {
    let bytes = encode_utf8(seed + info + extras);
    if bytes.len() < SECRET_PADDING || !is_char_boundary(bytes, bytes.len() - SECRET_PADDING) {
        None
    } else {
        Some(bytes.subrange(0, bytes.len() - SECRET_PADDING))
    }
}

/// The secrets with one more: a secret for a time zone that has one already
/// takes its place; else it is added at the end.
pub open spec fn remembered(secrets: Seq<Secret>, timezone: Seq<char>, secret: Seq<char>) -> Seq<
    Secret,
>
    decreases secrets.len(),
{
    if secrets.len() == 0 {
        seq![(timezone, secret)]
    } else if secrets[0].0 == timezone {
        seq![(timezone, secret)] + secrets.drop_first()
    } else {
        seq![secrets[0]] + remembered(secrets.drop_first(), timezone, secret)
    }
}

/// The secrets after the first `upto` matches of the pattern for the parts
/// have been worked in, each with the seed `seed`.
pub open spec fn secrets_after_infos(
    secrets: Seq<Secret>,
    seed: Seq<char>,
    infos: Seq<Seq<Option<Seq<char>>>>,
    upto: nat,
) -> Result<Seq<Secret>, ConfigError>
    decreases upto,
{
    if upto == 0 || upto > infos.len() {
        Ok(secrets)
    } else {
        match secrets_after_infos(secrets, seed, infos, (upto - 1) as nat) {
            Ok(before) => {
                let groups = infos[upto - 1];
                match secret_text(seed, group_text(groups, 3), group_text(groups, 4)) {
                    Some(secret) => Ok(remembered(before, group_text(groups, 1), secret)),
                    None => Err(ConfigError::BadSecret),
                }
            },
            Err(error) => Err(error),
        }
    }
}

/// The secrets after the first `upto` seeds have been worked in.
pub open spec fn secrets_after_seeds(
    secrets: Seq<Secret>,
    bundle: Seq<char>,
    seeds: Seq<Seq<Option<Seq<char>>>>,
    upto: nat,
) -> Result<Seq<Secret>, ConfigError>
    decreases upto,
{
    if upto == 0 || upto > seeds.len() {
        Ok(secrets)
    } else {
        match secrets_after_seeds(secrets, bundle, seeds, (upto - 1) as nat) {
            Ok(before) => {
                let groups = seeds[upto - 1];
                match regex_found(info_pattern_text(group_text(groups, 2)), bundle) {
                    Some(infos) => secrets_after_infos(
                        before,
                        group_text(groups, 1),
                        infos,
                        infos.len(),
                    ),
                    None => Err(ConfigError::BadPattern),
                }
            },
            Err(error) => Err(error),
        }
    }
}

/// The secrets once those of a bundle have been worked in.
pub open spec fn secrets_with_bundle(secrets: Seq<Secret>, bundle: Seq<char>) -> Result<
    Seq<Secret>,
    ConfigError,
> {
    match regex_found(SEED_REGEX@, bundle) {
        Some(seeds) => secrets_after_seeds(secrets, bundle, seeds, seeds.len()),
        None => Err(ConfigError::BadPattern),
    }
}

/// The contents of a list of secrets.
pub open spec fn secret_views(secrets: Seq<(String, String)>) -> Seq<Secret> {
    secrets.map_values(|secret: (String, String)| (secret.0@, secret.1@))
}

/// The text with `head` in the place of its first character.
pub fn with_head(head: String, text: &str) -> (result: String)
    requires
        text@.len() > 0,
    ensures
        result@ == head@ + text@.subrange(1, text@.len() as int),
{
    let count = text.unicode_len();
    let rest = text.substring_char(1, count);
    head.concat(rest)
}

/// The text with its first character in upper case.
pub fn capitalize(text: &str) -> (upper: String)
    ensures
        upper@ == capitalized(text@),
{
    if text.unicode_len() == 0 {
        let upper = String::from_str(text);
        upper
    } else {
        with_head(upper_case_of(text.get_char(0)), text)
    }
}

/// The pattern that finds the two other parts of the secrets of a time zone.
pub fn info_pattern(timezone: &str) -> (pattern: String)
    ensures
        pattern@ == info_pattern_text(timezone@),
{
    let mut pattern = String::from_str(INFO_REGEX_HEAD);
    pattern.append(capitalize(timezone).as_str());
    pattern.append(INFO_REGEX_TAIL);
    pattern
}

/// The text of a group of a match; empty where the match has no such group
/// or the group took no part.
pub fn group(groups: &Vec<Option<String>>, index: usize) -> (text: String)
    ensures
        text@ == group_text(group_views(*groups), index as int),
{
    if index < groups.len() {
        match &groups[index] {
            Some(found) => found.clone(),
            None => {
                let text = String::new();
                text
            },
        }
    } else {
        let text = String::new();
        text
    }
}

/// The text of a group of the first match, where there is a match.
pub fn first_group(found: &Vec<Vec<Option<String>>>, index: usize) -> (text: Option<String>)
    ensures
        match text {
            Some(text) => first_group_text(match_views(found@), index as int) == Some(text@),
            None => first_group_text(match_views(found@), index as int) is None,
        },
{
    if found.len() > 0 {
        Some(group(&found[0], index))
    } else {
        None
    }
}

/// The address of the script bundle that a login page names; nothing where
/// it names none.
pub fn bundle_url(login_page: &str) -> (url: Result<Option<String>, ConfigError>)
    ensures
        match url {
            Ok(Some(url)) => regex_found(BUNDLE_REGEX@, login_page@) matches Some(found)
                && first_group_text(found, 1) matches Some(path) && url@ == PLAY_URL@ + path,
            Ok(None) => regex_found(BUNDLE_REGEX@, login_page@) matches Some(found)
                && first_group_text(found, 1) is None,
            Err(error) => error == ConfigError::BadPattern && regex_found(
                BUNDLE_REGEX@,
                login_page@,
            ) is None,
        },
{
    match regex_captures(BUNDLE_REGEX, login_page) {
        Ok(found) => match first_group(&found, 1) {
            Some(path) => Ok(Some(joined(PLAY_URL, path.as_str()))),
            None => Ok(None),
        },
        Err(_) => Err(ConfigError::BadPattern),
    }
}

/// The app id that a bundle names.
pub fn app_id_in(bundle: &str) -> (app_id: Result<String, ConfigError>)
    ensures
        match app_id {
            Ok(app_id) => regex_found(APP_REGEX@, bundle@) matches Some(found)
                && first_group_text(found, 1) == Some(app_id@),
            Err(ConfigError::NoAppId) => regex_found(APP_REGEX@, bundle@) matches Some(found)
                && first_group_text(found, 1) is None,
            Err(error) => error == ConfigError::BadPattern && regex_found(APP_REGEX@, bundle@)
                is None,
        },
{
    match regex_captures(APP_REGEX, bundle) {
        Ok(found) => match first_group(&found, 1) {
            Some(app_id) => Ok(app_id),
            None => Err(ConfigError::NoAppId),
        },
        Err(_) => Err(ConfigError::BadPattern),
    }
}

/// The front of three parts in a row, without their last 44 bytes: the
/// encoded secret.
pub fn encoded_secret(seed: &str, info: &str, extras: &str) -> (front: Option<String>)
    ensures
        match front {
            Some(front) => secret_front(seed@, info@, extras@) == Some(encode_utf8(front@)),
            None => secret_front(seed@, info@, extras@) is None,
        },
{
    broadcast use vstd::utf8::encode_utf8_valid_utf8;

    let mut parts = String::from_str(seed);
    parts.append(info);
    parts.append(extras);
    let text = parts.as_str();
    let length = text.as_bytes().len();
    assert(text@ == seed@ + info@ + extras@);
    if length < SECRET_PADDING {
        return None;
    }
    let cut = length - SECRET_PADDING;
    if !text.is_char_boundary(cut) {
        return None;
    }
    let (kept, _) = text.split_at(cut);
    assert(kept.spec_bytes() == encode_utf8(text@).subrange(0, cut as int));
    Some(String::from_str(kept))
}

/// The secret that three parts stand for.
pub fn secret_of(seed: &str, info: &str, extras: &str) -> (secret: Option<String>)
    ensures
        match secret {
            Some(secret) => secret_text(seed@, info@, extras@) == Some(secret@),
            None => secret_text(seed@, info@, extras@) is None,
        },
{
    match encoded_secret(seed, info, extras) {
        Some(front) => match base64_decode(front.as_str().as_bytes()) {
            Ok(decoded) => utf8_text(decoded),
            Err(_) => None,
        },
        None => None,
    }
}

/// Whether no time zone has two secrets.
pub open spec fn one_secret_each(secrets: Seq<Secret>) -> bool {
    forall|i: int, j: int| 0 <= i < j < secrets.len() ==> secrets[i].0 != secrets[j].0
}

/// Whether a time zone has a secret.
pub open spec fn has_secret(secrets: Seq<Secret>, timezone: Seq<char>) -> bool {
    exists|i: int| 0 <= i < secrets.len() && #[trigger] secrets[i].0 == timezone
}

/// Remembering a secret keeps one secret for each time zone, and gives a
/// secret to no time zone but the one named and those that had one.
pub proof fn lemma_remembered_one_each(
    secrets: Seq<Secret>,
    timezone: Seq<char>,
    secret: Seq<char>,
)
    requires
        one_secret_each(secrets),
    ensures
        one_secret_each(remembered(secrets, timezone, secret)),
        has_secret(remembered(secrets, timezone, secret), timezone),
        forall|other: Seq<char>|
            has_secret(remembered(secrets, timezone, secret), other) ==> other == timezone
                || has_secret(secrets, other),
    decreases secrets.len(),
{
    let after = remembered(secrets, timezone, secret);
    if secrets.len() == 0 {
        assert(after[0].0 == timezone);
    } else if secrets[0].0 == timezone {
        let rest = secrets.drop_first();
        assert(after =~= seq![(timezone, secret)] + rest);
        assert(after[0].0 == timezone);
        assert forall|i: int, j: int| 0 <= i < j < after.len() implies after[i].0
            != after[j].0 by {
            assert(after[j] == secrets[j]);
            if i > 0 {
                assert(after[i] == secrets[i]);
            }
        }
        assert forall|other: Seq<char>| has_secret(after, other) implies other == timezone
            || has_secret(secrets, other) by {
            let i = choose|i: int| 0 <= i < after.len() && #[trigger] after[i].0 == other;
            if i > 0 {
                assert(secrets[i].0 == other);
            }
        }
    } else {
        let rest = secrets.drop_first();
        assert forall|i: int, j: int| 0 <= i < j < rest.len() implies rest[i].0 != rest[j].0 by {
            assert(rest[i] == secrets[i + 1]);
            assert(rest[j] == secrets[j + 1]);
        }
        lemma_remembered_one_each(rest, timezone, secret);
        let tail = remembered(rest, timezone, secret);
        assert(after =~= seq![secrets[0]] + tail);
        assert forall|i: int, j: int| 0 <= i < j < after.len() implies after[i].0
            != after[j].0 by {
            assert(after[j] == tail[j - 1]);
            if i > 0 {
                assert(after[i] == tail[i - 1]);
            } else {
                assert(has_secret(tail, tail[j - 1].0));
                if has_secret(rest, tail[j - 1].0) {
                    let k = choose|k: int|
                        0 <= k < rest.len() && #[trigger] rest[k].0 == tail[j - 1].0;
                    assert(rest[k] == secrets[k + 1]);
                }
            }
        }
        let at = choose|i: int| 0 <= i < tail.len() && #[trigger] tail[i].0 == timezone;
        assert(after[at + 1].0 == timezone);
        assert forall|other: Seq<char>| has_secret(after, other) implies other == timezone
            || has_secret(secrets, other) by {
            let i = choose|i: int| 0 <= i < after.len() && #[trigger] after[i].0 == other;
            if i == 0 {
                assert(secrets[0].0 == other);
            } else {
                assert(tail[i - 1].0 == other);
                assert(has_secret(tail, other));
                if has_secret(rest, other) {
                    let k = choose|k: int| 0 <= k < rest.len() && #[trigger] rest[k].0 == other;
                    assert(secrets[k + 1].0 == other);
                }
            }
        }
    }
}

/// Where no secret before `upto` is for the time zone, remembering goes on
/// behind `upto`.
proof fn lemma_remembered_skip(
    secrets: Seq<Secret>,
    timezone: Seq<char>,
    secret: Seq<char>,
    upto: int,
)
    requires
        0 <= upto <= secrets.len(),
        forall|i: int| 0 <= i < upto ==> secrets[i].0 != timezone,
    ensures
        remembered(secrets, timezone, secret) == secrets.take(upto) + remembered(
            secrets.skip(upto),
            timezone,
            secret,
        ),
    decreases upto,
{
    if upto == 0 {
        assert(secrets.skip(0) =~= secrets);
        assert(secrets.take(0) + remembered(secrets, timezone, secret) =~= remembered(
            secrets,
            timezone,
            secret,
        ));
    } else {
        let rest = secrets.drop_first();
        assert forall|i: int| 0 <= i < upto - 1 implies rest[i].0 != timezone by {
            assert(rest[i] == secrets[i + 1]);
        }
        lemma_remembered_skip(rest, timezone, secret, upto - 1);
        assert(rest.skip(upto - 1) =~= secrets.skip(upto));
        assert(seq![secrets[0]] + (rest.take(upto - 1) + remembered(
            secrets.skip(upto),
            timezone,
            secret,
        )) =~= secrets.take(upto) + remembered(secrets.skip(upto), timezone, secret));
    }
}

/// Remembers a secret: one for a time zone that has a secret already takes
/// its place; else it is added at the end.
pub fn remember_secret(secrets: &mut Vec<(String, String)>, timezone: String, secret: String)
    ensures
        secret_views(final(secrets)@) == remembered(secret_views(old(secrets)@), timezone@, secret@),
{
    let ghost before = secret_views(secrets@);
    let mut i: usize = 0;
    while i < secrets.len()
        invariant
            i <= secrets@.len(),
            secrets@ == old(secrets)@,
            before == secret_views(secrets@),
            forall|j: int| 0 <= j < i ==> before[j].0 != timezone@,
        decreases secrets@.len() - i,
    {
        if secrets[i].0 == timezone {
            proof {
                lemma_remembered_skip(before, timezone@, secret@, i as int);
                assert(before.skip(i as int)[0] == before[i as int]);
                assert(before.skip(i as int).drop_first() =~= before.skip(i + 1));
            }
            secrets.set(i, (timezone, secret));
            proof {
                assert(secret_views(secrets@) =~= before.take(i as int) + (seq![
                    (timezone@, secret@),
                ] + before.skip(i + 1)));
            }
            return ;
        }
        i += 1;
    }
    proof {
        lemma_remembered_skip(before, timezone@, secret@, i as int);
        assert(before.skip(i as int) =~= Seq::<Secret>::empty());
        assert(before.take(i as int) =~= before);
    }
    secrets.push((timezone, secret));
    proof {
        assert(secret_views(secrets@) =~= before + seq![(timezone@, secret@)]);
    }
}

/// Works the matches of the pattern for the parts into the secrets, each
/// with the seed `seed`. On an error the secrets may hold some of the new
/// ones.
pub fn remember_infos(
    secrets: &mut Vec<(String, String)>,
    seed: &str,
    infos: &Vec<Vec<Option<String>>>,
) -> (result: Result<(), ConfigError>)
    ensures
        match result {
            Ok(()) => secrets_after_infos(
                secret_views(old(secrets)@),
                seed@,
                match_views(infos@),
                infos@.len(),
            ) == Ok::<Seq<Secret>, ConfigError>(secret_views(final(secrets)@)),
            Err(error) => secrets_after_infos(
                secret_views(old(secrets)@),
                seed@,
                match_views(infos@),
                infos@.len(),
            ) == Err::<Seq<Secret>, ConfigError>(error),
        },
{
    let ghost start = secret_views(secrets@);
    let ghost all = match_views(infos@);
    let mut i: usize = 0;
    while i < infos.len()
        invariant
            i <= infos@.len(),
            all == match_views(infos@),
            start == secret_views(old(secrets)@),
            secrets_after_infos(start, seed@, all, i as nat) == Ok::<Seq<Secret>, ConfigError>(
                secret_views(secrets@),
            ),
        decreases infos@.len() - i,
    {
        let groups = &infos[i];
        assert(all[i as int] == group_views(*groups));
        let timezone = group(groups, 1);
        let info = group(groups, 3);
        let extras = group(groups, 4);
        match secret_of(seed, info.as_str(), extras.as_str()) {
            Some(secret) => {
                remember_secret(secrets, timezone, secret);
            },
            None => {
                proof {
                    assert(secrets_after_infos(start, seed@, all, (i + 1) as nat) == Err::<
                        Seq<Secret>,
                        ConfigError,
                    >(ConfigError::BadSecret));
                    lemma_infos_error_stays(start, seed@, all, (i + 1) as nat, all.len());
                }
                return Err(ConfigError::BadSecret);
            },
        }
        i += 1;
    }
    Ok(())
}

/// An error in working in the matches stays the error of the whole.
proof fn lemma_infos_error_stays(
    secrets: Seq<Secret>,
    seed: Seq<char>,
    infos: Seq<Seq<Option<Seq<char>>>>,
    at: nat,
    upto: nat,
)
    requires
        at <= upto <= infos.len(),
        secrets_after_infos(secrets, seed, infos, at) is Err,
    ensures
        secrets_after_infos(secrets, seed, infos, upto) == secrets_after_infos(
            secrets,
            seed,
            infos,
            at,
        ),
    decreases upto,
{
    if at < upto {
        lemma_infos_error_stays(secrets, seed, infos, at, (upto - 1) as nat);
    }
}

/// An error in working in the seeds stays the error of the whole.
proof fn lemma_seeds_error_stays(
    secrets: Seq<Secret>,
    bundle: Seq<char>,
    seeds: Seq<Seq<Option<Seq<char>>>>,
    at: nat,
    upto: nat,
)
    requires
        at <= upto <= seeds.len(),
        secrets_after_seeds(secrets, bundle, seeds, at) is Err,
    ensures
        secrets_after_seeds(secrets, bundle, seeds, upto) == secrets_after_seeds(
            secrets,
            bundle,
            seeds,
            at,
        ),
    decreases upto,
{
    if at < upto {
        lemma_seeds_error_stays(secrets, bundle, seeds, at, (upto - 1) as nat);
    }
}

/// Works the secrets that a bundle hides into `secrets`: for every seed of
/// the bundle, every pair of further parts under the seed's time zone gives
/// one secret. On an error the secrets may hold some of the new ones.
pub fn remember_bundle(secrets: &mut Vec<(String, String)>, bundle: &str) -> (result: Result<
    (),
    ConfigError,
>)
    ensures
        match result {
            Ok(()) => secrets_with_bundle(secret_views(old(secrets)@), bundle@) == Ok::<
                Seq<Secret>,
                ConfigError,
            >(secret_views(final(secrets)@)),
            Err(error) => secrets_with_bundle(secret_views(old(secrets)@), bundle@) == Err::<
                Seq<Secret>,
                ConfigError,
            >(error),
        },
{
    let seeds = match regex_captures(SEED_REGEX, bundle) {
        Ok(seeds) => seeds,
        Err(_) => {
            return Err(ConfigError::BadPattern);
        },
    };
    let ghost start = secret_views(secrets@);
    let ghost all = match_views(seeds@);
    let mut i: usize = 0;
    while i < seeds.len()
        invariant
            i <= seeds@.len(),
            all == match_views(seeds@),
            start == secret_views(old(secrets)@),
            regex_found(SEED_REGEX@, bundle@) == Some(all),
            secrets_after_seeds(start, bundle@, all, i as nat) == Ok::<Seq<Secret>, ConfigError>(
                secret_views(secrets@),
            ),
        decreases seeds@.len() - i,
    {
        let groups = &seeds[i];
        assert(all[i as int] == group_views(*groups));
        let seed = group(groups, 1);
        let timezone = group(groups, 2);
        let pattern = info_pattern(timezone.as_str());
        let infos = match regex_captures(pattern.as_str(), bundle) {
            Ok(infos) => infos,
            Err(_) => {
                proof {
                    assert(secrets_after_seeds(start, bundle@, all, (i + 1) as nat) == Err::<
                        Seq<Secret>,
                        ConfigError,
                    >(ConfigError::BadPattern));
                    lemma_seeds_error_stays(start, bundle@, all, (i + 1) as nat, all.len());
                }
                return Err(ConfigError::BadPattern);
            },
        };
        match remember_infos(secrets, seed.as_str(), &infos) {
            Ok(()) => {},
            Err(error) => {
                proof {
                    assert(secrets_after_seeds(start, bundle@, all, (i + 1) as nat) == Err::<
                        Seq<Secret>,
                        ConfigError,
                    >(error));
                    lemma_seeds_error_stays(start, bundle@, all, (i + 1) as nat, all.len());
                }
                return Err(error);
            },
        }
        i += 1;
    }
    Ok(())
}

} // verus!
