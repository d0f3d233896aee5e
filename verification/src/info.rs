//! Where a manifest is found: the address to download it from and the name
//! of its file.

use crate::{located, ErrorKind, Failure, ParserError, Place};
use http::uri::InvalidUri;
use http::Uri;
use vstd::prelude::*;
use vstd::string::*;

verus! {

/// The error of `http`'s parser of addresses.
#[verifier::external_type_specification]
#[verifier::external_body]
pub struct ExInvalidUri(InvalidUri);

/// The path of an address; nothing where the text is no address.
pub uninterp spec fn uri_path(text: Seq<char>) -> Option<Seq<char>>;

/// `http::Uri`'s `from_str` and `path`: the text is parsed as an address and
/// its path is handed out, the empty text where the address has none. What
/// comes back depends on the text alone.
#[verifier::external_body]
fn path_of_uri(text: &str) -> (r: Result<String, InvalidUri>)
    ensures
        match r {
            Ok(path) => uri_path(text@) == Some(path@),
            Err(_) => uri_path(text@) is None,
        },
{
    let uri: Uri = text.parse()?;
    Ok(uri.path().to_owned())
}

/// One parameter of an address's query.
#[derive(Debug)]
pub struct QueryParam {
    pub name: String,
    pub value: String,
}

/// One place from which a manifest can be downloaded.
#[derive(Debug)]
pub struct ManifestLocation {
    pub uri: String,
    pub query_params: Vec<QueryParam>,
}

/// What the vendor's catalogue says of a build.
#[derive(Debug)]
pub struct ManifestElement {
    pub app_name: String,
    pub label_name: String,
    pub build_version: String,
    pub hash: String,
    pub manifests: Vec<ManifestLocation>,
}

/// Where the manifest of a build is found.
#[derive(Debug)]
pub struct ManifestInfo {
    pub app_name: String,
    pub label_name: String,
    pub build_version: String,
    pub hash: String,
    pub file_name: String,
    pub uri: String,
}

/// What a `ManifestInfo` holds, with each text as its characters.
pub ghost struct ManifestInfoView {
    pub app_name: Seq<char>,
    pub label_name: Seq<char>,
    pub build_version: Seq<char>,
    pub hash: Seq<char>,
    pub file_name: Seq<char>,
    pub uri: Seq<char>,
}

impl View for ManifestInfo {
    type V = ManifestInfoView;

    open spec fn view(&self) -> ManifestInfoView {
        ManifestInfoView {
            app_name: self.app_name@,
            label_name: self.label_name@,
            build_version: self.build_version@,
            hash: self.hash@,
            file_name: self.file_name@,
            uri: self.uri@,
        }
    }
}

/// An address with the first `n` parameters of a query: the first behind a
/// question mark, each of the others behind an ampersand, each as name,
/// equals sign, value.
pub open spec fn with_query(uri: Seq<char>, params: Seq<QueryParam>, n: nat) -> Seq<char>
    decreases n,
{
    if n == 0 {
        uri
    } else {
        with_query(uri, params, (n - 1) as nat).push(if n == 1 { '?' } else { '&' })
            + params[n - 1].name@ + "="@ + params[n - 1].value@
    }
}

/// What follows the last slash of a path; nothing where the path has none.
pub open spec fn after_last_slash(path: Seq<char>) -> Option<Seq<char>>
    decreases path.len(),
{
    if path.len() == 0 {
        None
    } else if path.last() == '/' {
        Some(Seq::empty())
    } else {
        match after_last_slash(path.drop_last()) {
            Some(name) => Some(name.push(path.last())),
            None => None,
        }
    }
}

/// A path without a slash keeps being one when characters that are no slash
/// are put in front of its end; a path with a slash at `from - 1` and none
/// behind it names what lies from `from` on.
proof fn lemma_after_last_slash(path: Seq<char>, from: int)
    requires
        0 <= from <= path.len(),
        forall|k: int| from <= k < path.len() ==> path[k] != '/',
    ensures
        from > 0 && path[from - 1] == '/' ==> after_last_slash(path) == Some(
            path.subrange(from, path.len() as int),
        ),
        from == 0 ==> after_last_slash(path) is None,
    decreases path.len(),
{
    if from < path.len() {
        let front = path.drop_last();
        lemma_after_last_slash(front, from);
        if from > 0 && path[from - 1] == '/' {
            assert(front.subrange(from, front.len() as int).push(path.last()) =~= path.subrange(
                from,
                path.len() as int,
            ));
        }
    } else if from > 0 && path[from - 1] == '/' {
        assert(path.subrange(from, path.len() as int) =~= Seq::<char>::empty());
    }
}

/// The name of the file that a path ends in.
pub fn file_name_of(path: &str) -> (name: Option<String>)
    ensures
        name.deep_view() == after_last_slash(path@),
{
    let len: usize = path.unicode_len();
    let mut from: usize = len;
    while from > 0
        invariant
            from <= len,
            len == path@.len(),
            forall|k: int| from <= k < len ==> path@[k] != '/',
        decreases from,
    {
        if path.get_char(from - 1) == '/' {
            proof {
                lemma_after_last_slash(path@, from as int);
            }
            return Some(path.substring_char(from, len).to_owned());
        }
        from -= 1;
    }
    proof {
        lemma_after_last_slash(path@, 0);
    }
    None
}

/// The address of a location with the parameters of its query.
pub fn full_uri(location: &ManifestLocation) -> (uri: String)
    ensures
        uri@ == with_query(location.uri@, location.query_params@, location.query_params@.len()),
{
    let mut uri = location.uri.clone();
    let mut i: usize = 0;
    while i < location.query_params.len()
        invariant
            i <= location.query_params@.len(),
            uri@ == with_query(location.uri@, location.query_params@, i as nat),
        decreases location.query_params@.len() - i,
    {
        let param = &location.query_params[i];
        uri.push(if i == 0 { '?' } else { '&' });
        uri.append(param.name.as_str());
        uri.append("=");
        uri.append(param.value.as_str());
        i += 1;
    }
    uri
}

/// What the description of a build yields, given the address of its first
/// location and the path of that address: nothing where the address is none
/// or its path has no slash.
pub open spec fn spec_manifest_info(
    element: ManifestElement,
    uri: Seq<char>,
    path: Option<Seq<char>>,
) -> Result<ManifestInfoView, Failure> {
    match path {
        None => Err(located(ErrorKind::CorruptManifest, Place::ManifestInfo)),
        Some(path) => match after_last_slash(path) {
            None => Err(located(ErrorKind::CorruptManifest, Place::ManifestInfo)),
            Some(file_name) => Ok(
                ManifestInfoView {
                    app_name: element.app_name@,
                    label_name: element.label_name@,
                    build_version: element.build_version@,
                    hash: element.hash@,
                    file_name,
                    uri,
                },
            ),
        },
    }
}

/// The address of the first location of a build, with its query.
pub open spec fn first_uri(element: ManifestElement) -> Seq<char> {
    with_query(
        element.manifests@[0].uri@,
        element.manifests@[0].query_params@,
        element.manifests@[0].query_params@.len(),
    )
}

impl ManifestInfo {
    /// Where the manifest of a build is found: at the first of its locations,
    /// in the file that the path of that address ends in. A build without a
    /// location has no manifest.
    pub fn new(element: &ManifestElement) -> (r: Result<Self, ParserError>)
        ensures
            element.manifests@.len() == 0 ==> r is Err && r->Err_0@ == located(
                ErrorKind::CorruptManifest,
                Place::ManifestInfo,
            ),
            element.manifests@.len() > 0 ==> match spec_manifest_info(
                *element,
                first_uri(*element),
                uri_path(first_uri(*element)),
            ) {
                Ok(info) => r is Ok && r->Ok_0@ == info,
                Err(f) => r is Err && r->Err_0@ == f,
            },
    {
        if element.manifests.len() == 0 {
            return Err(ParserError::located_at(ErrorKind::CorruptManifest, Place::ManifestInfo));
        }
        let uri = full_uri(&element.manifests[0]);
        let path: Option<String> = match path_of_uri(uri.as_str()) {
            Ok(path) => Some(path),
            Err(_) => None,
        };
        Self::with_path(element, uri, path)
    }

    /// Where the manifest of a build is found, given the address to download
    /// it from and the path of that address.
    pub fn with_path(element: &ManifestElement, uri: String, path: Option<String>) -> (r: Result<
        Self,
        ParserError,
    >)
        ensures
            match spec_manifest_info(*element, uri@, path.deep_view()) {
                Ok(info) => r is Ok && r->Ok_0@ == info,
                Err(f) => r is Err && r->Err_0@ == f,
            },
    {
        let path = match path {
            Some(path) => path,
            None => {
                return Err(
                    ParserError::located_at(ErrorKind::CorruptManifest, Place::ManifestInfo),
                );
            },
        };
        let file_name = match file_name_of(path.as_str()) {
            Some(name) => name,
            None => {
                return Err(
                    ParserError::located_at(ErrorKind::CorruptManifest, Place::ManifestInfo),
                );
            },
        };
        Ok(
            ManifestInfo {
                app_name: element.app_name.clone(),
                label_name: element.label_name.clone(),
                build_version: element.build_version.clone(),
                hash: element.hash.clone(),
                file_name,
                uri,
            },
        )
    }
}

} // verus!
