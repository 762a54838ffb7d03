//! Names of the local copies of remote files: each copy has a metadata file
//! beside it, and its name is made from the end of the remote path and a
//! digest of the whole remote path.

use vstd::prelude::*;
use crate::digest::{content_hash, spec_sha256_hex};
use crate::keyed::views_of;
use crate::configuration::opt_text_view;
use crate::text::append_text;
use vstd::string::StringSliceAdditionalSpecFns;

verus! {

/// Suffix of the metadata file that accompanies a local copy.
pub const METADATA_SUFFIX: &'static str = ".metadata.yml";

/// How many trailing components of the remote path the local name keeps.
pub const MAX_PATH_COMPONENTS: usize = 2;

/// The metadata file of a local copy.
pub open spec fn metadata_path_of(local_file_path: Seq<char>) -> Seq<char> {
    local_file_path + METADATA_SUFFIX@
}

/// Path of the metadata file that belongs to a local copy.
pub fn get_metadata_path(local_file_path: &str) -> (r: String)
    ensures
        r@ == metadata_path_of(local_file_path@),
{
    let mut path = local_file_path.to_string();
    append_text(&mut path, METADATA_SUFFIX);
    path
}

/// The path of the copy a metadata file belongs to, if the name ends with
/// the metadata suffix.
pub open spec fn content_path_of(metadata_path: Seq<char>) -> Option<Seq<char>> {
    let n = METADATA_SUFFIX@.len();
    if metadata_path.len() >= n && metadata_path.skip(metadata_path.len() - n) == METADATA_SUFFIX@ {
        Some(metadata_path.take(metadata_path.len() - n))
    } else {
        None
    }
}

/// The copy that a metadata file belongs to is the file whose metadata
/// file it is, and the other way round: naming a copy's metadata file and
/// taking its copy's name gives the copy back.
pub proof fn law_metadata_name_round_trip(local_file_path: Seq<char>, metadata_path: Seq<char>)
    ensures
        content_path_of(metadata_path_of(local_file_path)) == Some(local_file_path),
        content_path_of(metadata_path) == Some(local_file_path) ==> metadata_path_of(local_file_path) == metadata_path,
{
    let m = metadata_path_of(local_file_path);
    let n = METADATA_SUFFIX@.len();
    assert(m.skip(m.len() - n) =~= METADATA_SUFFIX@);
    assert(m.take(m.len() - n) =~= local_file_path);
    if content_path_of(metadata_path) == Some(local_file_path) {
        let k = metadata_path.len() - n;
        assert(metadata_path =~= metadata_path.take(k) + metadata_path.skip(k));
    }
}

/// `metadata_path` without the metadata suffix (`strip_suffix`).
pub fn strip_metadata_suffix(metadata_path: &str) -> (r: Option<String>)
    ensures
        r matches Some(p) ==> content_path_of(metadata_path@) == Some(p@),
        r is None ==> content_path_of(metadata_path@) is None,
{
    let chars = crate::text::chars_of(metadata_path);
    let suffix = crate::text::chars_of(METADATA_SUFFIX);
    if chars.len() < suffix.len() {
        return None;
    }
    let start = chars.len() - suffix.len();
    let mut i: usize = 0;
    while i < suffix.len()
        invariant
            chars@ == metadata_path@,
            suffix@ == METADATA_SUFFIX@,
            start == chars.len() - suffix.len(),
            i <= suffix.len(),
            forall|k: int| 0 <= k < i ==> chars@[start + k] == suffix@[k],
        decreases suffix.len() - i,
    {
        if chars[start + i] != suffix[i] {
            proof {
                assert(metadata_path@.skip(start as int)[i as int] != METADATA_SUFFIX@[i as int]);
            }
            return None;
        }
        i = i + 1;
    }
    assert(metadata_path@.skip(start as int) =~= METADATA_SUFFIX@);
    Some(crate::text::string_from_range(&chars, 0, start))
}

/// `Path::is_file`: whether a regular file is at the path. It depends on
/// the disk, so nothing is stated of it.
#[verifier::external_body]
fn path_is_file(path: &str) -> (r: bool) {
    std::path::Path::new(path).is_file()
}

/// The local copy a metadata file belongs to, when its name has the metadata
/// suffix and the copy exists as a file. Whether it exists depends on the
/// disk: a result is always the name without the suffix.
pub fn get_content_file_path(metadata_path: &str) -> (r: Option<String>)
    ensures
        r matches Some(p) ==> content_path_of(metadata_path@) == Some(p@),
        content_path_of(metadata_path@) is None ==> r is None,
{
    match strip_metadata_suffix(metadata_path) {
        Some(file_path) => {
            if path_is_file(file_path.as_str()) {
                Some(file_path)
            } else {
                None
            }
        },
        None => None,
    }
}

/// What `Path::components` yields for a path, each component as text.
pub uninterp spec fn spec_path_components(path: Seq<char>) -> Seq<Seq<char>>;

/// Whether a text holds no `/`.
pub open spec fn no_slash(s: Seq<char>) -> bool {
    forall|i: int| 0 <= i < s.len() ==> s[i] != '/'
}

/// `Path::components`: the components of a path, each as text. Its result
/// is named by `spec_path_components`; what is stated besides is that the
/// separators split the path, so a component is the root `/` or holds no
/// `/` at all.
#[verifier::external_body]
fn path_components(path: &str) -> (r: Vec<String>)
    ensures
        views_of(r@) == spec_path_components(path@),
        forall|i: int| 0 <= i < r@.len() ==> (#[trigger] r@[i])@ == "/"@ || no_slash(r@[i]@),
{
    std::path::Path::new(path).components().map(|c| c.as_os_str().to_string_lossy().into_owned()).collect()
}

/// What `Path::file_name` gives for a path, as text (`None` when the path
/// ends in `..`, is a root, or is not valid text).
pub uninterp spec fn spec_path_file_name(path: Seq<char>) -> Option<Seq<char>>;

/// `Path::file_name`: the final component of a path, if it is a normal
/// one. Its result is named by `spec_path_file_name`; nothing more is
/// stated.
#[verifier::external_body]
pub(crate) fn path_file_name(path: &str) -> (r: Option<String>)
    ensures
        opt_text_view(r) == spec_path_file_name(path@),
{
    std::path::Path::new(path).file_name().and_then(|name| name.to_str()).map(|name| name.to_string())
}

/// The components of a path other than the root `/`, in order.
pub open spec fn named_parts(components: Seq<Seq<char>>) -> Seq<Seq<char>>
    decreases components.len(),
{
    if components.len() == 0 {
        components
    } else if components.last() == "/"@ {
        named_parts(components.drop_last())
    } else {
        named_parts(components.drop_last()).push(components.last())
    }
}

/// The local name for a remote path with these named parts and digest: the
/// last parts (at most two), each followed by `_`, then the digest.
pub open spec fn local_name_from(parts: Seq<Seq<char>>, hash: Seq<char>) -> Seq<char> {
    let n = parts.len();
    if n == 0 {
        hash
    } else if n == 1 {
        parts[0] + "_"@ + hash
    } else {
        parts[n - 2] + "_"@ + parts[n - 1] + "_"@ + hash
    }
}

proof fn lemma_no_slash_concat(a: Seq<char>, b: Seq<char>)
    requires
        no_slash(a),
        no_slash(b),
    ensures
        no_slash(a + b),
{
    assert forall|i: int| 0 <= i < (a + b).len() implies (a + b)[i] != '/' by {
        if i < a.len() {
            assert((a + b)[i] == a[i]);
        } else {
            assert((a + b)[i] == b[i - a.len()]);
        }
    }
}

/// Name of the local copy of a remote file: its last path components (the
/// root left out) and the SHA-256 digest of the whole remote path, so that
/// different remote files get different names and the user still
/// recognizes the file. The name holds no `/`, so the copy lies directly
/// in the directory it is joined to.
pub fn local_file_name(remote_file_path: &str) -> (r: String)
    ensures
        r@ == local_name_from(
            named_parts(spec_path_components(remote_file_path@)),
            spec_sha256_hex(remote_file_path.spec_bytes()),
        ),
        no_slash(r@),
        r@.len() > 0,
{
    let components = path_components(remote_file_path);
    let ghost cv = views_of(components@);
    let mut parts: Vec<String> = Vec::new();
    let mut i: usize = 0;
    proof {
        reveal_strlit("/");
        assert(cv.take(0) =~= Seq::<Seq<char>>::empty());
        assert(views_of(parts@) =~= Seq::<Seq<char>>::empty());
    }
    while i < components.len()
        invariant
            i <= components.len(),
            cv == views_of(components@),
            forall|k: int| 0 <= k < components@.len() ==> (#[trigger] components@[k])@ == "/"@ || no_slash(components@[k]@),
            views_of(parts@) == named_parts(cv.take(i as int)),
            forall|k: int| 0 <= k < parts@.len() ==> no_slash(#[trigger] parts@[k]@),
        decreases components.len() - i,
    {
        proof {
            assert(cv.take(i + 1).drop_last() =~= cv.take(i as int));
            assert(cv.take(i + 1).last() == components@[i as int]@);
        }
        let ghost prev = parts@;
        if !crate::enums::str_equals(components[i].as_str(), "/") {
            parts.push(components[i].clone());
            proof {
                assert(views_of(parts@) =~= views_of(prev).push(components@[i as int]@));
            }
        }
        i = i + 1;
    }
    proof {
        assert(cv.take(components.len() as int) =~= cv);
    }
    let hash = content_hash(remote_file_path.as_bytes());
    proof {
        reveal_strlit("_");
        assert(no_slash(hash@)) by {
            assert forall|k: int| 0 <= k < hash@.len() implies hash@[k] != '/' by {
                assert(crate::digest::is_lower_hex(hash@[k]));
            }
        }
        assert(no_slash("_"@));
    }
    let n = parts.len();
    if n == 0 {
        hash
    } else if n == 1 {
        proof {
            assert(parts@[0]@ == views_of(parts@)[0]);
            assert(no_slash(parts@[0]@));
            lemma_no_slash_concat(parts@[0]@, "_"@);
            lemma_no_slash_concat(parts@[0]@ + "_"@, hash@);
        }
        let mut name = parts[0].clone();
        append_text(&mut name, "_");
        append_text(&mut name, hash.as_str());
        name
    } else {
        proof {
            assert(parts@[n - 2]@ == views_of(parts@)[n - 2]);
            assert(parts@[n - 1]@ == views_of(parts@)[n - 1]);
            assert(no_slash(parts@[n - 2]@));
            assert(no_slash(parts@[n - 1]@));
            let a = parts@[n - 2]@;
            let b = parts@[n - 1]@;
            lemma_no_slash_concat(a, "_"@);
            lemma_no_slash_concat(a + "_"@, b);
            lemma_no_slash_concat(a + "_"@ + b, "_"@);
            lemma_no_slash_concat(a + "_"@ + b + "_"@, hash@);
        }
        let mut name = parts[n - 2].clone();
        append_text(&mut name, "_");
        append_text(&mut name, parts[n - 1].as_str());
        append_text(&mut name, "_");
        append_text(&mut name, hash.as_str());
        name
    }
}

/// Name of the application's own directory inside the user directories.
pub const APP_DIR_NAME: &'static str = "lightkeeper";

/// What `Path::join` gives for two texts.
pub uninterp spec fn spec_path_join(base: Seq<char>, part: Seq<char>) -> Seq<char>;

/// `Path::join`: `part` appended to `base` as a path. Its result is named
/// by `spec_path_join`; what is stated besides is what the documentation
/// gives on Unix: an absolute `part` (one that starts with `/`) replaces
/// `base`, and a relative one is appended to a non-empty `base` that does
/// not end in `/` after one separator.
#[verifier::external_body]
fn path_join(base: &str, part: &str) -> (r: String)
    ensures
        r@ == spec_path_join(base@, part@),
        part@.len() > 0 && part@[0] == '/' ==> r@ == part@,
        !(part@.len() > 0 && part@[0] == '/') && base@.len() > 0 && base@.last() != '/' ==> r@ == base@ + "/"@
            + part@,
{
    std::path::Path::new(base).join(part).to_string_lossy().into_owned()
}

/// A user directory: the one its XDG variable names, or the given place
/// under the home directory; inside the application's own subdirectory
/// unless running in a Flatpak sandbox (which has one of its own). `None`
/// when neither variable is set.
pub open spec fn user_dir(
    xdg: Option<Seq<char>>,
    home: Option<Seq<char>>,
    home_relative: Seq<char>,
    in_flatpak: bool,
) -> Option<Seq<char>> {
    let base = match xdg {
        Some(dir) => Some(dir),
        None => match home {
            Some(h) => Some(spec_path_join(h, home_relative)),
            None => None,
        },
    };
    match base {
        None => None,
        Some(b) => if in_flatpak {
            Some(b)
        } else {
            Some(spec_path_join(b, APP_DIR_NAME@))
        },
    }
}

fn user_dir_from(xdg: &Option<String>, home: &Option<String>, home_relative: &str, in_flatpak: bool) -> (r: Option<String>)
    ensures
        opt_text_view(r) == user_dir(opt_text_view(*xdg), opt_text_view(*home), home_relative@, in_flatpak),
{
    let base = match xdg {
        Some(dir) => dir.clone(),
        None => match home {
            Some(h) => path_join(h.as_str(), home_relative),
            None => {
                return None;
            },
        },
    };
    if in_flatpak {
        Some(base)
    } else {
        Some(path_join(base.as_str(), APP_DIR_NAME))
    }
}

/// The configuration directory: `$XDG_CONFIG_HOME` or `$HOME/.config`.
/// One of them must be set.
pub fn config_dir_from(xdg_config_home: &Option<String>, home: &Option<String>, in_flatpak: bool) -> (r: String)
    requires
        xdg_config_home.is_some() || home.is_some(),
    ensures
        user_dir(opt_text_view(*xdg_config_home), opt_text_view(*home), ".config"@, in_flatpak) == Some(r@),
{
    match user_dir_from(xdg_config_home, home, ".config", in_flatpak) {
        Some(dir) => dir,
        None => String::new(),
    }
}

/// The cache directory: `$XDG_CACHE_HOME` or `$HOME/.cache`. One of them
/// must be set.
pub fn cache_dir_from(xdg_cache_home: &Option<String>, home: &Option<String>, in_flatpak: bool) -> (r: String)
    requires
        xdg_cache_home.is_some() || home.is_some(),
    ensures
        user_dir(opt_text_view(*xdg_cache_home), opt_text_view(*home), ".cache"@, in_flatpak) == Some(r@),
{
    match user_dir_from(xdg_cache_home, home, ".cache", in_flatpak) {
        Some(dir) => dir,
        None => String::new(),
    }
}

/// The data directory: `$XDG_DATA_HOME` or `$HOME/.local/share`; an error
/// when neither is set.
pub fn data_dir_from(xdg_data_home: &Option<String>, home: &Option<String>, in_flatpak: bool) -> (r: Result<String, String>)
    ensures
        r matches Ok(d) ==> user_dir(
            opt_text_view(*xdg_data_home),
            match opt_text_view(*home) {
                Some(h) => Some(spec_path_join(h, ".local"@)),
                None => None,
            },
            "share"@,
            in_flatpak,
        ) == Some(d@),
        r is Err <==> xdg_data_home.is_none() && home.is_none(),
        r matches Err(e) ==> e@ == "Cannot find data directory. $XDG_DATA_HOME or $HOME is not set."@,
{
    let local = match home {
        Some(h) => Some(path_join(h.as_str(), ".local")),
        None => None,
    };
    match user_dir_from(xdg_data_home, &local, "share", in_flatpak) {
        Some(dir) => Ok(dir),
        None => Err("Cannot find data directory. $XDG_DATA_HOME or $HOME is not set.".to_string()),
    }
}

/// The local directory and file of the copy of a remote file: the host's
/// directory in the cache, and the local name inside it.
pub open spec fn local_paths_of(cache_dir: Seq<char>, host_name: Seq<char>, name: Seq<char>) -> (
    Seq<char>,
    Seq<char>,
) {
    let dir = spec_path_join(cache_dir, host_name);
    (dir, spec_path_join(dir, name))
}

/// The local directory and file paths for a remote file of a host, given
/// the cache directory. The file lies directly in the directory: when the
/// directory's path does not end in `/`, the file's path is it, a `/`, and
/// the local name, which holds no `/`.
pub fn convert_to_local_paths(cache_dir: &str, host_name: &str, remote_file_path: &str) -> (r: (String, String))
    ensures
        (r.0@, r.1@) == local_paths_of(
            cache_dir@,
            host_name@,
            local_name_from(named_parts(spec_path_components(remote_file_path@)), spec_sha256_hex(remote_file_path.spec_bytes())),
        ),
        r.0@.len() > 0 && r.0@.last() != '/' ==> r.1@ == r.0@ + "/"@ + local_name_from(
            named_parts(spec_path_components(remote_file_path@)),
            spec_sha256_hex(remote_file_path.spec_bytes()),
        ),
        no_slash(local_name_from(
            named_parts(spec_path_components(remote_file_path@)),
            spec_sha256_hex(remote_file_path.spec_bytes()),
        )),
{
    let dir = path_join(cache_dir, host_name);
    let name = local_file_name(remote_file_path);
    let file = path_join(dir.as_str(), name.as_str());
    (dir, file)
}

/// The metadata file of the local copy of a remote file of a host.
pub fn convert_to_local_metadata_path(cache_dir: &str, host_name: &str, remote_file_path: &str) -> (r: String)
    ensures
        r@ == metadata_path_of(
            local_paths_of(
                cache_dir@,
                host_name@,
                local_name_from(named_parts(spec_path_components(remote_file_path@)), spec_sha256_hex(remote_file_path.spec_bytes())),
            ).1,
        ),
{
    let (_, file) = convert_to_local_paths(cache_dir, host_name, remote_file_path);
    get_metadata_path(file.as_str())
}

/// What is kept beside a local copy of a remote file.
#[derive(Debug)]
pub struct FileMetadata {
    /// When the download completed, in milliseconds since the Unix epoch.
    pub download_time: i64,
    pub local_path: Option<String>,
    pub remote_path: String,
    pub remote_file_hash: String,
    pub owner_uid: u32,
    pub owner_gid: u32,
    pub permissions: u32,
    /// Temporary copies are removed once they are no longer used (usually
    /// after uploading).
    pub temporary: bool,
}

impl FileMetadata {
    /// Records the digest the remote file has now.
    pub fn update_hash(&mut self, new_hash: String)
        ensures
            final(self).remote_file_hash@ == new_hash@,
            final(self).download_time == old(self).download_time,
            final(self).local_path == old(self).local_path,
            final(self).remote_path == old(self).remote_path,
            final(self).owner_uid == old(self).owner_uid,
            final(self).owner_gid == old(self).owner_gid,
            final(self).permissions == old(self).permissions,
            final(self).temporary == old(self).temporary,
    {
        self.remote_file_hash = new_hash;
    }

    /// The metadata file of this copy; an error when the metadata does not
    /// name its local copy.
    pub fn metadata_file_path(&self) -> (r: Result<String, String>)
        ensures
            r matches Ok(p) ==> self.local_path matches Some(l) && p@ == metadata_path_of(l@),
            r is Err <==> self.local_path is None,
            r matches Err(e) ==> e@ == "Metadata does not contain local file path"@,
    {
        match &self.local_path {
            Some(l) => Ok(get_metadata_path(l.as_str())),
            None => Err("Metadata does not contain local file path".to_string()),
        }
    }
}

} // verus!
