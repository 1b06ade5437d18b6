//! The icon of the application and the icons of the providers.

use crate::text::{replace, replaced, same_text};
use vstd::prelude::*;

verus! {

/// The colour that an icon is asked for in.
#[derive(Debug)]
pub struct IconQuery {
    pub color: Option<String>,
}

/// An icon of the collection.
#[derive(Debug)]
pub struct IconAsset {
    pub name: String,
    pub svg: String,
}

/// An icon as it is sent, with the values of its headers.
#[derive(Debug)]
pub struct IconReply<B> {
    pub content_type: String,
    pub cache_control: String,
    pub body: B,
}

/// The icon of a provider that has none of its own.
pub const DEFAULT_ICON: &'static str = "<svg xmlns=\"http://www.w3.org/2000/svg\" width=\"1em\" height=\"1em\" viewBox=\"0 0 24 24\" fill=\"currentColor\"><circle cx=\"12\" cy=\"12\" r=\"10\"/></svg>";

/// The names of the icons of the collection, but for the one of the app that the
/// management API manages, which bears the name of that app.
pub const ICON_NAMES: [&'static str; 70] = [
    "aicodemirror",
    "aicoding",
    "aihubmix-color",
    "algocode",
    "alibaba",
    "anthropic",
    "aws",
    "azure",
    "baidu",
    "bailian",
    "bytedance",
    "catcoder",
    "chatglm",
    "claw",
    "cloudflare",
    "cohere",
    "copilot",
    "crazyrouter",
    "ctok",
    "cubence",
    "dds",
    "deepseek",
    "doubao",
    "gemini",
    "gemma",
    "github",
    "githubcopilot",
    "google",
    "googlecloud",
    "grok",
    "huawei",
    "huggingface",
    "hunyuan",
    "kimi",
    "lioncc",
    "longcat-color",
    "mcp",
    "meta",
    "micu",
    "midjourney",
    "minimax",
    "mistral",
    "modelscope-color",
    "newapi",
    "notion",
    "novita",
    "nvidia",
    "ollama",
    "openai",
    "opencode-logo-light",
    "openrouter",
    "packycode",
    "palm",
    "perplexity",
    "qwen",
    "rc",
    "shengsuanyun",
    "siliconflow",
    "sssaicode",
    "stability",
    "stepfun",
    "tencent",
    "ucloud",
    "vercel",
    "wenxin",
    "xai",
    "xiaomimimo",
    "yi",
    "zeroone",
    "zhipu",
];

/// The names of the icons of the collection, where `app` is the app that the
/// management API manages.
pub open spec fn icon_names(app: Seq<char>) -> Seq<Seq<char>> {
    ICON_NAMES@.map_values(|name: &'static str| name@).push(app)
}

/// Whether the collection has an icon with the given name, where `app` is the app
/// that the management API manages.
pub fn is_icon_name(app: &str, name: &str) -> (known: bool)
    ensures
        known == icon_names(app@).contains(name@),
{
    let ghost names = icon_names(app@);
    let mut i: usize = 0;
    while i < ICON_NAMES.len()
        invariant
            i <= ICON_NAMES@.len(),
            names == icon_names(app@),
            forall|j: int| 0 <= j < i ==> names[j] != name@,
        decreases ICON_NAMES@.len() - i,
    {
        if same_text(ICON_NAMES[i], name) {
            assert(names[i as int] == name@);
            return true;
        }
        i += 1;
    }
    assert(names.last() == app@);
    same_text(app, name)
}

/// The icon of the application, a PNG image.
pub fn get_icon(png: Vec<u8>) -> (reply: IconReply<Vec<u8>>)
    ensures
        reply.content_type@ == "image/png"@,
        reply.cache_control@ == "public, max-age=86400"@,
        reply.body == png,
{
    IconReply {
        content_type: "image/png".to_string(),
        cache_control: "public, max-age=86400".to_string(),
        body: png,
    }
}

/// The icon with the given name, or the default one.
pub open spec fn icon_named(assets: Seq<IconAsset>, name: Seq<char>) -> Seq<char>
    decreases assets.len(),
{
    if assets.len() == 0 {
        DEFAULT_ICON@
    } else if assets[0].name@ == name {
        assets[0].svg@
    } else {
        icon_named(assets.skip(1), name)
    }
}

/// The icon that is served under the given name: the one of the collection, or
/// the default one where the name is none of the collection's. `app` is the app
/// that the management API manages.
pub open spec fn served_icon(assets: Seq<IconAsset>, app: Seq<char>, name: Seq<char>) -> Seq<
    char,
> {
    if icon_names(app).contains(name) {
        icon_named(assets, name)
    } else {
        DEFAULT_ICON@
    }
}

/// An icon in the given colour. An icon is drawn in `currentColor` where it takes
/// its colour from around it, which an image of its own cannot do.
pub open spec fn colored(svg: Seq<char>, color: Option<Seq<char>>) -> Seq<char> {
    match color {
        Some(color) => if color.len() == 0 || color == "currentColor"@ {
            svg
        } else {
            replaced(svg, "currentColor"@, color)
        },
        None => svg,
    }
}

/// The icon of a provider, an SVG image, in the colour that is asked for. `app` is
/// the app that the management API manages.
pub fn get_provider_icon(
    assets: &Vec<IconAsset>,
    app: &str,
    name: &str,
    query: &IconQuery,
) -> (reply: IconReply<String>)
    ensures
        reply.content_type@ == "image/svg+xml"@,
        reply.cache_control@ == "public, max-age=3600"@,
        reply.body@ == colored(
            served_icon(assets@, app@, name@),
            query.color.deep_view(),
        ),
{
    let template = if is_icon_name(app, name) {
        find_icon(assets, name)
    } else {
        DEFAULT_ICON
    };
    let body = match &query.color {
        Some(color) => if color.as_str().is_empty() || same_text(color.as_str(), "currentColor") {
            template.to_string()
        } else {
            proof {
                reveal_strlit("currentColor");
            }
            replace(template, "currentColor", color.as_str())
        },
        None => template.to_string(),
    };
    IconReply {
        content_type: "image/svg+xml".to_string(),
        cache_control: "public, max-age=3600".to_string(),
        body,
    }
}

/// The icon with the given name, or the default one.
fn find_icon<'a>(assets: &'a Vec<IconAsset>, name: &str) -> (svg: &'a str)
    ensures
        svg@ == icon_named(assets@, name@),
{
    let mut i: usize = 0;
    assert(assets@.skip(0) =~= assets@);
    while i < assets.len()
        invariant
            i <= assets.len(),
            icon_named(assets@, name@) == icon_named(assets@.skip(i as int), name@),
        decreases assets.len() - i,
    {
        assert(assets@.skip(i as int)[0] == assets@[i as int]);
        assert(assets@.skip(i as int).skip(1) =~= assets@.skip(i + 1));
        if same_text(assets[i].name.as_str(), name) {
            return assets[i].svg.as_str();
        }
        i += 1;
    }
    DEFAULT_ICON
}

/// An icon of the collection is found under its name, the first one where there are
/// several, and the default one under every other name.
pub proof fn icons_are_found_by_name(assets: Seq<IconAsset>, name: Seq<char>)
    ensures
        (forall|i: int| 0 <= i < assets.len() ==> (#[trigger] assets[i]).name@ != name)
            ==> icon_named(assets, name) == DEFAULT_ICON@,
        forall|i: int|
            0 <= i < assets.len() && (#[trigger] assets[i]).name@ == name && (forall|j: int|
                0 <= j < i ==> (#[trigger] assets[j]).name@ != name) ==> icon_named(assets, name)
                == assets[i].svg@,
    decreases assets.len(),
{
    if assets.len() > 0 {
        let rest = assets.skip(1);
        icons_are_found_by_name(rest, name);
        assert forall|i: int| 0 < i < assets.len() implies assets[i] == rest[i - 1] by {}
        if forall|i: int| 0 <= i < assets.len() ==> (#[trigger] assets[i]).name@ != name {
            assert forall|i: int| 0 <= i < rest.len() implies (#[trigger] rest[i]).name@
                != name by {
                assert(assets[i + 1].name@ != name);
            }
            assert(assets[0].name@ != name);
        }
        assert forall|i: int|
            0 <= i < assets.len() && (#[trigger] assets[i]).name@ == name && (forall|j: int|
                0 <= j < i ==> (#[trigger] assets[j]).name@ != name) implies icon_named(
            assets,
            name,
        ) == assets[i].svg@ by {
            if i > 0 {
                assert(assets[0].name@ != name);
                assert forall|j: int| 0 <= j < i - 1 implies (#[trigger] rest[j]).name@ != name by {
                    assert(assets[j + 1].name@ != name);
                }
                assert(rest[i - 1].name@ == name);
            }
        }
    }
}

/// Which names are served: those of the collection and that of the managed app, as
/// they are found; every other name has the default icon.
pub proof fn only_known_names_are_served(
    assets: Seq<IconAsset>,
    app: Seq<char>,
    name: Seq<char>,
)
    ensures
        ({
            let known = name == app || exists|i: int|
                0 <= i < ICON_NAMES@.len() && (#[trigger] ICON_NAMES@[i])@ == name;
            &&& icon_names(app).contains(name) <==> known
            &&& known ==> served_icon(assets, app, name) == icon_named(assets, name)
            &&& !known ==> served_icon(assets, app, name) == DEFAULT_ICON@
        }),
{
    let names = icon_names(app);
    assert(names.last() == app);
    assert forall|i: int| 0 <= i < ICON_NAMES@.len() implies names[i] == (
    #[trigger] ICON_NAMES@[i])@ by {}
    if names.contains(name) && name != app {
        let i = choose|i: int| 0 <= i < names.len() && names[i] == name;
        assert(ICON_NAMES@[i]@ == name);
    }
    if exists|i: int| 0 <= i < ICON_NAMES@.len() && (#[trigger] ICON_NAMES@[i])@ == name {
        let i = choose|i: int| 0 <= i < ICON_NAMES@.len() && (#[trigger] ICON_NAMES@[i])@ == name;
        assert(names[i] == name);
    }
}

/// An icon is coloured just where a colour of its own is asked for: every
/// `currentColor` gives way to it. Otherwise the icon is as it is.
pub proof fn icons_are_coloured_on_demand(svg: Seq<char>, color: Seq<char>)
    ensures
        colored(svg, None) == svg,
        color.len() == 0 || color == "currentColor"@ ==> colored(svg, Some(color)) == svg,
        color.len() > 0 && color != "currentColor"@ ==> colored(svg, Some(color)) == replaced(
            svg,
            "currentColor"@,
            color,
        ),
{
}

} // verus!
