//! Keeping manifests up to date: when one is fetched, how it is asked for,
//! and what the answer means.

use vstd::prelude::*;
use crate::decode::manifest_of_text;
use crate::error::Error;
use crate::manifest::Manifest;
use crate::text::{glue, strip_suffix, text_of};

verus! {

/// An instant: the seconds since the start of 1970 in universal time, and
/// the nanoseconds since the start of that second.
#[derive(Clone, Copy, Debug, PartialEq, Eq)]
pub struct Timestamp {
    pub secs: i64,
    pub nanos: u32,
}

impl Timestamp {
    /// The start of 1970, which stands for an instant that is not known.
    pub open spec fn epoch() -> Timestamp {
        Timestamp { secs: 0, nanos: 0 }
    }
}

impl Default for Timestamp {
    fn default() -> (r: Self)
        ensures
            r == Timestamp::epoch(),
    {
        Timestamp { secs: 0, nanos: 0 }
    }
}

/// What is remembered of a manifest that was fetched.
#[derive(Clone, Debug, PartialEq, Eq)]
pub struct CachedManifest {
    pub etag: Option<String>,
    /// When the source was last asked.
    pub checked: Option<Timestamp>,
    /// When the source last had something new.
    pub updated: Option<Timestamp>,
}

/// The result of fetching a manifest, to be remembered.
#[derive(Clone, Debug, PartialEq, Eq)]
pub struct ManifestUpdate {
    pub url: String,
    pub etag: Option<String>,
    pub timestamp: Timestamp,
    pub modified: bool,
}

/// How long a manifest is good for, in hours.
pub const HOURS_BETWEEN_UPDATES: i64 = 24;

/// The whole hours that `chrono` counts from the second instant to the
/// first; none where one of the two is no instant that `chrono` can hold.
pub uninterp spec fn hours_between(
    later_secs: i64,
    later_nanos: u32,
    earlier_secs: i64,
    earlier_nanos: u32,
) -> Option<i64>;

/// Makes two instants with `chrono::DateTime::from_timestamp`, takes their
/// difference with `signed_duration_since` and its whole hours with
/// `num_hours`. The contract only names that number, which depends on how
/// the crate counts leap seconds and on the range of instants that it holds.
#[verifier::external_body]
fn whole_hours(later: Timestamp, earlier: Timestamp) -> (r: Option<i64>)
    ensures
        r == hours_between(later.secs, later.nanos, earlier.secs, earlier.nanos),
{
    let a = chrono::DateTime::from_timestamp(later.secs, later.nanos)?;
    let b = chrono::DateTime::from_timestamp(earlier.secs, earlier.nanos)?;
    Some(a.signed_duration_since(b).num_hours())
}

/// Whether a manifest is to be fetched: always when that is forced, when
/// its file is not there, or when nothing is remembered of it; else when
/// `hours` since it was last asked for are a day or more. Where the hours
/// cannot be told, it is fetched.
pub open spec fn update_due(force: bool, present: bool, remembered: bool, hours: Option<i64>) -> bool {
    force || !present || !remembered || match hours {
        Some(hours) => hours >= HOURS_BETWEEN_UPDATES,
        None => true,
    }
}

/// Tells whether a manifest is to be fetched, given the hours since it
/// was last asked for.
pub fn is_update_due(force: bool, present: bool, remembered: bool, hours: Option<i64>) -> (r: bool)
    ensures
        r == update_due(force, present, remembered, hours),
{
    if force || !present || !remembered {
        return true;
    }
    match hours {
        Some(hours) => hours >= HOURS_BETWEEN_UPDATES,
        None => true,
    }
}

/// When a remembered manifest was last asked for; where that is not
/// known, at the start of 1970.
pub open spec fn last_checked(cached: Option<&CachedManifest>) -> Timestamp {
    match cached {
        Some(CachedManifest { checked: Some(at), .. }) => *at,
        _ => Timestamp::epoch(),
    }
}

/// The address of a source for the purposes of error messages: the primary
/// manifest has none.
pub open spec fn identifier_of(url: Seq<char>, primary: bool) -> Option<Seq<char>> {
    if primary {
        None
    } else {
        Some(url)
    }
}

/// A request for a manifest.
#[derive(Clone, Debug, PartialEq, Eq)]
pub struct UpdateRequest {
    pub url: String,
    /// The tag of the copy at hand: the source need not send the manifest
    /// again if it still has this tag.
    pub if_none_match: Option<String>,
}

/// What came of a request for a manifest.
#[derive(Clone, Debug, PartialEq, Eq)]
pub enum UpdateResponse {
    /// The request could not be sent, or no answer came.
    Unreachable,
    /// The source answered with a status code. `body` is the text that it
    /// sent, unless that could not be read or is no text; `etag` is the
    /// tag that it gave the manifest.
    Status { code: u16, body: Option<String>, etag: Option<String> },
}

/// What to do after an answer: remember `update`, and where `content` is
/// there, first store it as the manifest's file.
#[derive(Clone, Debug, PartialEq, Eq)]
pub struct Fetched {
    pub update: ManifestUpdate,
    pub content: Option<String>,
}

/// A source of a manifest that is to be brought up to date.
#[derive(Clone, Debug, PartialEq, Eq)]
pub struct UpdateTarget {
    pub url: String,
    pub primary: bool,
}

/// A source as a mathematical value.
pub struct UpdateTargetView {
    pub url: Seq<char>,
    pub primary: bool,
}

impl View for UpdateTarget {
    type V = UpdateTargetView;

    open spec fn view(&self) -> UpdateTargetView {
        UpdateTargetView { url: self.url@, primary: self.primary }
    }
}

/// The sources to bring up to date: the primary one if it is switched on
/// or the update is forced, then the secondary ones in their order.
pub open spec fn targets(
    enable: bool,
    force: bool,
    primary_url: Seq<char>,
    secondary_urls: Seq<Seq<char>>,
) -> Seq<UpdateTargetView> {
    (if enable || force {
        seq![UpdateTargetView { url: primary_url, primary: true }]
    } else {
        Seq::empty()
    }) + secondary_urls.map_values(|url: Seq<char>| UpdateTargetView { url, primary: false })
}

/// The manifest updates of a list of results, in their order.
pub open spec fn updates_upto(
    results: Seq<Result<Option<ManifestUpdate>, Error>>,
    n: nat,
) -> Seq<ManifestUpdate>
    decreases n,
{
    if n == 0 {
        Seq::empty()
    } else {
        match results[n - 1] {
            Ok(Some(update)) => updates_upto(results, (n - 1) as nat).push(update),
            _ => updates_upto(results, (n - 1) as nat),
        }
    }
}

/// The first failure among the first `n` results.
pub open spec fn first_error(results: Seq<Result<Option<ManifestUpdate>, Error>>, n: nat) -> Option<
    Error,
>
    decreases n,
{
    if n == 0 {
        None
    } else {
        match first_error(results, (n - 1) as nat) {
            Some(e) => Some(e),
            None => match results[n - 1] {
                Err(e) => Some(e),
                Ok(_) => None,
            },
        }
    }
}

/// The address without every `.yaml` at its end.
pub open spec fn without_yaml(url: Seq<char>) -> Seq<char>
    decreases url.len(),
{
    if ".yaml"@.len() > 0 && ".yaml"@.is_suffix_of(url) {
        without_yaml(url.subrange(0, url.len() - ".yaml"@.len()))
    } else {
        url
    }
}

/// The name of the file of a manifest. `encoded` stands for the address of
/// a secondary manifest in a form that a file name can hold.
pub open spec fn file_name(encoded: Seq<char>, primary: bool) -> Seq<char> {
    if primary {
        "manifest.yaml"@
    } else {
        "manifest-"@ + encoded + ".yaml"@
    }
}

/// Where the file of a manifest lies: under its name in the folder `dir`.
pub open spec fn file_path(dir: Seq<char>, encoded: Seq<char>, primary: bool) -> Seq<char> {
    dir + seq!['/'] + file_name(encoded, primary)
}

impl Manifest {
    /// Where the file of a manifest lies, given the folder in which the
    /// program keeps its files.
    pub fn path_for(dir: &str, encoded: &str, primary: bool) -> (r: String)
        ensures
            r@ == file_path(dir@, encoded@, primary),
    {
        proof {
            reveal_strlit("/");
            assert("/"@ =~= seq!['/']);
        }
        let mut r = glue(dir, "/");
        let name = Manifest::file_name_for(encoded, primary);
        r.append(name.as_str());
        r
    }

    /// The address of a secondary manifest without the `.yaml` at its end,
    /// however often it stands there.
    pub fn file_stem_for(url: &str) -> (r: String)
        ensures
            r@ == without_yaml(url@),
    {
        proof {
            reveal_strlit(".yaml");
        }
        let mut rest: &str = url;
        loop
            invariant
                ".yaml"@.len() == 5,
                without_yaml(url@) == without_yaml(rest@),
            decreases rest@.len(),
        {
            match strip_suffix(rest, ".yaml") {
                Some(shorter) => {
                    rest = shorter;
                },
                None => {
                    return String::from_str(rest);
                },
            }
        }
    }

    /// The name of the file that holds a manifest.
    pub fn file_name_for(encoded: &str, primary: bool) -> (r: String)
        ensures
            r@ == file_name(encoded@, primary),
    {
        if primary {
            String::from_str("manifest.yaml")
        } else {
            let mut r = glue("manifest-", encoded);
            r.append(".yaml");
            r
        }
    }

    /// Tells whether a manifest is to be fetched. `present` says whether its
    /// file is there, `cached` is what is remembered of it, `now` is the
    /// present instant.
    pub fn should_update(
        cached: Option<&CachedManifest>,
        present: bool,
        force: bool,
        now: Timestamp,
    ) -> (r: bool)
        ensures
            r == update_due(
                force,
                present,
                cached is Some,
                hours_between(
                    now.secs,
                    now.nanos,
                    last_checked(cached).secs,
                    last_checked(cached).nanos,
                ),
            ),
    {
        if force || !present {
            return true;
        }
        match cached {
            None => true,
            Some(cached) => {
                let checked = match cached.checked {
                    Some(at) => at,
                    None => Timestamp::default(),
                };
                is_update_due(force, present, true, whole_hours(now, checked))
            },
        }
    }

    /// The sources to bring up to date, in the order in which they are
    /// tried. `secondary_urls` are the secondary sources that take part.
    pub fn update(enable: bool, force: bool, primary_url: &str, secondary_urls: &Vec<String>) -> (r:
        Vec<UpdateTarget>)
        ensures
            r@.map_values(|t: UpdateTarget| t@) == targets(
                enable,
                force,
                primary_url@,
                secondary_urls.deep_view(),
            ),
    {
        let mut out: Vec<UpdateTarget> = Vec::new();
        if enable || force {
            out.push(UpdateTarget { url: String::from_str(primary_url), primary: true });
        }
        let ghost head = out@.map_values(|t: UpdateTarget| t@);
        let ghost tail = secondary_urls.deep_view().map_values(
            |url: Seq<char>| UpdateTargetView { url, primary: false },
        );
        let mut i: usize = 0;
        while i < secondary_urls.len()
            invariant
                i <= secondary_urls.len(),
                tail == secondary_urls.deep_view().map_values(
                    |url: Seq<char>| UpdateTargetView { url, primary: false },
                ),
                out@.map_values(|t: UpdateTarget| t@) == head + tail.subrange(0, i as int),
            decreases secondary_urls.len() - i,
        {
            let ghost before = out@;
            let target = UpdateTarget { url: secondary_urls[i].clone(), primary: false };
            assert(target@ == tail[i as int]);
            out.push(target);
            assert(out@.map_values(|t: UpdateTarget| t@) =~= before.map_values(
                |t: UpdateTarget| t@,
            ).push(target@));
            assert(out@.map_values(|t: UpdateTarget| t@) =~= head + tail.subrange(0, i + 1));
            i += 1;
        }
        assert(tail.subrange(0, i as int) =~= tail);
        out
    }

    /// The failure to tell when a manifest could not be fetched or stored.
    pub fn cannot_update(url: &str, primary: bool) -> (r: Error)
        ensures
            r matches Error::ManifestCannotBeUpdated { identifier } && text_of(identifier)
                == identifier_of(url@, primary),
    {
        Error::ManifestCannotBeUpdated {
            identifier: if primary {
                None
            } else {
                Some(String::from_str(url))
            },
        }
    }

    /// The request by which a manifest is fetched, or none where it need
    /// not be fetched. The tag of the copy at hand goes along if one is
    /// remembered and the file is there.
    pub fn request_update(
        url: &str,
        cached: Option<&CachedManifest>,
        present: bool,
        force: bool,
        now: Timestamp,
    ) -> (r: Option<UpdateRequest>)
        ensures
            r is Some <==> update_due(
                force,
                present,
                cached is Some,
                hours_between(
                    now.secs,
                    now.nanos,
                    last_checked(cached).secs,
                    last_checked(cached).nanos,
                ),
            ),
            r matches Some(request) ==> request.url@ == url@ && text_of(request.if_none_match) == (
            match cached {
                Some(c) => if present {
                    text_of(c.etag)
                } else {
                    None
                },
                None => None,
            }),
    {
        if !Manifest::should_update(cached, present, force, now) {
            return None;
        }
        let if_none_match = match cached {
            Some(cached) => match &cached.etag {
                Some(etag) => if present {
                    Some(etag.clone())
                } else {
                    None
                },
                None => None,
            },
            None => None,
        };
        Some(UpdateRequest { url: String::from_str(url), if_none_match })
    }

    /// Judges the answer to a request for the manifest at `url`. An answer
    /// with status 200 has to hold a valid manifest, which is then to be
    /// stored and counts as new; one with status 304 means that the copy at
    /// hand, with the tag `old_etag`, is still good. Everything else is a
    /// failure.
    pub fn update_one(
        url: &str,
        primary: bool,
        old_etag: Option<String>,
        response: UpdateResponse,
        now: Timestamp,
    ) -> (r: Result<Fetched, Error>)
        ensures
            match response {
                UpdateResponse::Status { code: 200, body: Some(body), etag } => (
                match manifest_of_text(body@) {
                    Some(_) => r matches Ok(fetched) && fetched.update.url@ == url@
                        && fetched.update.etag == etag && fetched.update.timestamp == now
                        && fetched.update.modified && fetched.content == Some(body),
                    None => r matches Err(Error::ManifestInvalid { identifier, .. }) && text_of(
                        identifier,
                    ) == identifier_of(url@, primary),
                }),
                UpdateResponse::Status { code: 304, .. } => r matches Ok(fetched)
                    && fetched.update.url@ == url@ && fetched.update.etag == old_etag
                    && fetched.update.timestamp == now && !fetched.update.modified
                    && fetched.content is None,
                _ => r matches Err(Error::ManifestCannotBeUpdated { identifier }) && text_of(
                    identifier,
                ) == identifier_of(url@, primary),
            },
    {
        match response {
            UpdateResponse::Status { code, body, etag } => {
                if code == 200 {
                    match body {
                        Some(body) => {
                            // The manifest is stored only if it is valid.
                            match Manifest::load_from_string(body.as_str()) {
                                Ok(_) => Ok(
                                    Fetched {
                                        update: ManifestUpdate {
                                            url: String::from_str(url),
                                            etag,
                                            timestamp: now,
                                            modified: true,
                                        },
                                        content: Some(body),
                                    },
                                ),
                                Err(why) => Err(
                                    Error::ManifestInvalid {
                                        why,
                                        identifier: if primary {
                                            None
                                        } else {
                                            Some(String::from_str(url))
                                        },
                                    },
                                ),
                            }
                        },
                        None => Err(Manifest::cannot_update(url, primary)),
                    }
                } else if code == 304 {
                    Ok(
                        Fetched {
                            update: ManifestUpdate {
                                url: String::from_str(url),
                                etag: old_etag,
                                timestamp: now,
                                modified: false,
                            },
                            content: None,
                        },
                    )
                } else {
                    Err(Manifest::cannot_update(url, primary))
                }
            },
            UpdateResponse::Unreachable => Err(Manifest::cannot_update(url, primary)),
        }
    }

    /// Sums up the results of bringing the sources up to date: what is to
    /// be remembered, in the order of the sources, and the first failure if
    /// there was one. A failure of one source does not keep the results of
    /// the others from being remembered.
    pub fn update_mut(results: Vec<Result<Option<ManifestUpdate>, Error>>) -> (r: (
        Vec<ManifestUpdate>,
        Result<(), Error>,
    ))
        ensures
            r.0@ == updates_upto(results@, results@.len()),
            match first_error(results@, results@.len()) {
                Some(e) => r.1 == Err::<(), Error>(e),
                None => r.1 is Ok,
            },
    {
        let ghost all = results@;
        let ghost n = results.len();
        let mut pending = crate::merge::reversed(results);
        let mut updates: Vec<ManifestUpdate> = Vec::new();
        let mut error: Option<Error> = None;
        while pending.len() > 0
            invariant
                pending.len() <= n,
                all.len() == n,
                forall|i: int| 0 <= i < pending.len() ==> pending[i] == all[n - 1 - i],
                updates@ == updates_upto(all, (n - pending.len()) as nat),
                error == first_error(all, (n - pending.len()) as nat),
            decreases pending.len(),
        {
            match pending.pop() {
                Some(Ok(Some(update))) => {
                    updates.push(update);
                },
                Some(Ok(None)) => {},
                Some(Err(e)) => {
                    if error.is_none() {
                        error = Some(e);
                    }
                },
                None => {},
            }
        }
        let outcome = match error {
            Some(e) => Err(e),
            None => Ok(()),
        };
        (updates, outcome)
    }
}

} // verus!
