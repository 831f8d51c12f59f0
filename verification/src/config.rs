use vstd::prelude::*;

verus! {

/// One configured stream: the addresses it may be played from, in order of
/// preference, and the label shown for it (empty when none was given).
pub struct ConfigSource {
    pub urls: Vec<String>,
    pub name: String,
}

/// The whole configuration file.
pub struct Config {
    pub max_volume: i32,
    pub volume_step: i32,
    pub sources: Vec<ConfigSource>,
}

/// The number of volume steps used when the configuration names none.
pub fn default_max_volume() -> (v: i32)
    ensures
        v == 10,
{
    10
}

/// The step by which `h` and `l` move the volume when the configuration names none.
pub fn default_volume_step() -> (v: i32)
    ensures
        v == 1,
{
    1
}

/// What the `url` entry of a source holds, as far as reading the source
/// depends on it.
pub enum UrlField {
    /// No `url` entry, or one that is `null`.
    Absent,
    /// A single address.
    Single(String),
    /// A list; an item is `Some` when it is a string and `None` otherwise.
    List(Vec<Option<String>>),
    /// Any other kind of value.
    Other,
}

/// Why a configured source could not be read.
#[derive(PartialEq, Eq, Structural, Debug, Clone, Copy)]
pub enum ConfigError {
    /// `url` is neither a string nor a list.
    UrlNotStringOrList,
    /// Neither `urls` nor `url` gives an address.
    MissingUrl,
}

impl ConfigError {
    /// The text that names the error to the user.
    pub fn message(&self) -> (r: &'static str)
        ensures
            *self == ConfigError::UrlNotStringOrList ==> r@ == "url must be a string or array of strings"@,
            *self == ConfigError::MissingUrl ==> r@ == "missing url or urls field"@,
    {
        match self {
            ConfigError::UrlNotStringOrList => "url must be a string or array of strings",
            ConfigError::MissingUrl => "missing url or urls field",
        }
    }
}

/// The strings of a list, in order, with the items that are not strings left out.
pub open spec fn present_strings(items: Seq<Option<String>>) -> Seq<String>
    decreases items.len(),
{
    if items.len() == 0 {
        Seq::empty()
    } else {
        let rest = present_strings(items.drop_last());
        match items.last() {
            Some(s) => rest.push(s),
            None => rest,
        }
    }
}

/// The addresses a source reads from its `urls` and `url` entries, or the error.
pub open spec fn resolve_urls(urls: Seq<String>, url: UrlField) -> Result<Seq<String>, ConfigError> {
    if urls.len() > 0 {
        Ok(urls)
    } else {
        match url {
            UrlField::Absent => Err(ConfigError::MissingUrl),
            UrlField::Single(s) => Ok(seq![s]),
            UrlField::List(items) => Ok(present_strings(items@)),
            UrlField::Other => Err(ConfigError::UrlNotStringOrList),
        }
    }
}

fn collect_strings(items: Vec<Option<String>>) -> (r: Vec<String>)
    ensures
        r@ == present_strings(items@),
{
    let mut r: Vec<String> = Vec::new();
    let mut i: usize = 0;
    while i < items.len()
        invariant
            i <= items.len(),
            r@ == present_strings(items@.take(i as int)),
        decreases items.len() - i,
    {
        assert(items@.take(i as int + 1).drop_last() =~= items@.take(i as int));
        match &items[i] {
            Some(s) => r.push(s.clone()),
            None => {},
        }
        i = i + 1;
    }
    assert(items@.take(items.len() as int) =~= items@);
    r
}

impl ConfigSource {
    /// Reads a source from its entries: `urls` when it is not empty, else
    /// `url`, which is one address or a list whose strings are taken in order.
    pub fn from_fields(name: String, urls: Vec<String>, url: UrlField) -> (r: Result<ConfigSource, ConfigError>)
        ensures
            match (r, resolve_urls(urls@, url)) {
                (Ok(src), Ok(expected)) => src.urls@ == expected && src.name == name,
                (Err(e), Err(expected)) => e == expected,
                _ => false,
            },
    {
        if urls.len() > 0 {
            Ok(ConfigSource { urls, name })
        } else {
            match url {
                UrlField::Single(s) => {
                    let mut v: Vec<String> = Vec::new();
                    v.push(s);
                    Ok(ConfigSource { urls: v, name })
                },
                UrlField::List(items) => Ok(ConfigSource { urls: collect_strings(items), name }),
                UrlField::Other => Err(ConfigError::UrlNotStringOrList),
                UrlField::Absent => Err(ConfigError::MissingUrl),
            }
        }
    }
}

} // verus!
