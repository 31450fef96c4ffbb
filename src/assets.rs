use vstd::prelude::*;

verus! {

/// The files served as they are, with a fixed content type each.
#[derive(Clone, Copy, Debug, PartialEq, Eq, Structural)]
pub enum StaticAsset {
    Crimson,
    JetBrainsMono,
}

/// Which handler answers a request path.
#[derive(Clone, Copy, Debug, PartialEq, Eq, Structural)]
pub enum Route {
    /// One of the static files.
    Asset(StaticAsset),
    /// Everything else: the path names a page to read.
    Article,
}

pub const CRIMSON_PATH: &'static str = "/static/Crimson.woff2";

pub const JETBRAINS_MONO_PATH: &'static str = "/static/JetBrainsMono.woff2";

pub const CRIMSON_TYPE: &'static str = "text/woff2";

pub const JETBRAINS_MONO_TYPE: &'static str = "font/woff2";

pub const CRIMSON_FILE: &'static str = "Crimson.woff2";

pub const JETBRAINS_MONO_FILE: &'static str = "JetBrainsMono.woff2";

pub open spec fn asset_path(a: StaticAsset) -> Seq<char> {
    match a {
        StaticAsset::Crimson => CRIMSON_PATH@,
        StaticAsset::JetBrainsMono => JETBRAINS_MONO_PATH@,
    }
}

pub open spec fn asset_type(a: StaticAsset) -> Seq<char> {
    match a {
        StaticAsset::Crimson => CRIMSON_TYPE@,
        StaticAsset::JetBrainsMono => JETBRAINS_MONO_TYPE@,
    }
}

pub open spec fn asset_file(a: StaticAsset) -> Seq<char> {
    match a {
        StaticAsset::Crimson => CRIMSON_FILE@,
        StaticAsset::JetBrainsMono => JETBRAINS_MONO_FILE@,
    }
}

/// The handler for a path: an asset on its exact path, else the reader.
pub open spec fn route_of(path: Seq<char>) -> Route {
    if path == CRIMSON_PATH@ {
        Route::Asset(StaticAsset::Crimson)
    } else if path == JETBRAINS_MONO_PATH@ {
        Route::Asset(StaticAsset::JetBrainsMono)
    } else {
        Route::Article
    }
}

impl StaticAsset {
    /// The exact path on which the asset is served.
    pub fn path(&self) -> (r: &'static str)
        ensures
            r@ == asset_path(*self),
    {
        match self {
            StaticAsset::Crimson => CRIMSON_PATH,
            StaticAsset::JetBrainsMono => JETBRAINS_MONO_PATH,
        }
    }

    /// The content type sent with the asset.
    pub fn content_type(&self) -> (r: &'static str)
        ensures
            r@ == asset_type(*self),
    {
        match self {
            StaticAsset::Crimson => CRIMSON_TYPE,
            StaticAsset::JetBrainsMono => JETBRAINS_MONO_TYPE,
        }
    }

    /// The name of the file that holds the asset's bytes.
    pub fn file_name(&self) -> (r: &'static str)
        ensures
            r@ == asset_file(*self),
    {
        match self {
            StaticAsset::Crimson => CRIMSON_FILE,
            StaticAsset::JetBrainsMono => JETBRAINS_MONO_FILE,
        }
    }
}

/// Whether two texts are the same, character by character.
pub fn same_text(a: &str, b: &str) -> (r: bool)
    ensures
        r == (a@ == b@),
{
    let n = a.unicode_len();
    if n != b.unicode_len() {
        return false;
    }
    let mut i: usize = 0;
    while i < n
        invariant
            n == a@.len(),
            n == b@.len(),
            i <= n,
            a@.subrange(0, i as int) == b@.subrange(0, i as int),
        decreases n - i,
    {
        if a.get_char(i) != b.get_char(i) {
            assert(a@[i as int] != b@[i as int]);
            return false;
        }
        assert(a@.subrange(0, i + 1) =~= a@.subrange(0, i as int).push(a@[i as int]));
        assert(b@.subrange(0, i + 1) =~= b@.subrange(0, i as int).push(b@[i as int]));
        i = i + 1;
    }
    assert(a@ =~= a@.subrange(0, n as int));
    assert(b@ =~= b@.subrange(0, n as int));
    true
}

/// Picks the handler for a request path.
pub fn route(path: &str) -> (r: Route)
    ensures
        r == route_of(path@),
{
    if same_text(path, CRIMSON_PATH) {
        Route::Asset(StaticAsset::Crimson)
    } else if same_text(path, JETBRAINS_MONO_PATH) {
        Route::Asset(StaticAsset::JetBrainsMono)
    } else {
        Route::Article
    }
}

/// Each asset is served on its own path, and only there, always with the
/// same content type: routing and the asset's data depend on the path alone.
pub proof fn lemma_asset_routes_fixed(a: StaticAsset, path: Seq<char>)
    ensures
        route_of(asset_path(a)) == Route::Asset(a),
        route_of(path) == Route::Asset(a) ==> path == asset_path(a),
        asset_type(a) == (match a {
            StaticAsset::Crimson => "text/woff2"@,
            StaticAsset::JetBrainsMono => "font/woff2"@,
        }),
{
    reveal_strlit("/static/Crimson.woff2");
    reveal_strlit("/static/JetBrainsMono.woff2");
    assert(CRIMSON_PATH@[8] != JETBRAINS_MONO_PATH@[8]);
}

} // verus!
