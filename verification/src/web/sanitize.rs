//! Server-side sanitisation of stored chapter HTML.
//!
//! The scraper stores whatever upstream serves, verbatim. This is the first
//! of two independent defences; the second is the sandboxed iframe and
//! content security policy of the chapter reader.
use vstd::prelude::*;

verus! {

pub open spec fn texts(v: Seq<&str>) -> Seq<Seq<char>> {
    v.map_values(|s: &str| s@)
}

/// What `ammonia` makes of `html` with a builder that starts from its
/// defaults and then allows exactly `tags`, allows the attributes
/// `generic_attributes` on every tag, keeps only the style properties
/// `style_properties`, also allows `tag_attributes` on `tag`, and adds no
/// `rel` to links.
pub uninterp spec fn ammonia_cleaned(
    tags: Seq<Seq<char>>,
    generic_attributes: Seq<Seq<char>>,
    style_properties: Seq<Seq<char>>,
    tag: Seq<char>,
    tag_attributes: Seq<Seq<char>>,
    html: Seq<char>,
) -> Seq<char>;

/// Trusted: configures an `ammonia::Builder` (`Builder::default`, `tags`,
/// `generic_attributes`, `filter_style_properties`, `add_tag_attributes`,
/// `link_rel(None)`) and calls `Builder::clean`, then renders the document.
/// The result is named `ammonia_cleaned`. Ammonia asserts that no allowed
/// tag is one whose content it always removes (`script`, `style`), hence
/// the `requires`.
#[verifier::external_body]
fn ammonia_clean(
    tags: &Vec<&str>,
    generic_attributes: &Vec<&str>,
    style_properties: &Vec<&str>,
    tag: &str,
    tag_attributes: &Vec<&str>,
    html: &str,
) -> (out: String)
    requires
        forall|i: int| 0 <= i < tags@.len() ==> tags@[i]@ != "script"@ && tags@[i]@ != "style"@,
        tag@ != "script"@ && tag@ != "style"@,
    ensures
        out@ == ammonia_cleaned(
            texts(tags@),
            texts(generic_attributes@),
            texts(style_properties@),
            tag@,
            texts(tag_attributes@),
            html@,
        ),
{
    let mut builder = ammonia::Builder::default();
    builder.tags(tags.iter().copied().collect());
    builder.generic_attributes(generic_attributes.iter().copied().collect());
    builder.filter_style_properties(style_properties.iter().copied().collect());
    builder.add_tag_attributes(tag, tag_attributes.iter().copied());
    builder.link_rel(None);
    builder.clean(html).to_string()
}

/// Prose structure, emphasis, lists, tables and images.
pub open spec fn chapter_tags() -> Seq<Seq<char>> {
    seq![
        "p"@, "br"@, "hr"@, "div"@, "span"@, "blockquote"@, "pre"@, "code"@,
        "em"@, "i"@, "strong"@, "b"@, "u"@, "s"@, "sub"@, "sup"@, "small"@,
        "h1"@, "h2"@, "h3"@, "h4"@, "h5"@, "h6"@,
        "ul"@, "ol"@, "li"@, "dl"@, "dt"@, "dd"@,
        "table"@, "thead"@, "tbody"@, "tr"@, "th"@, "td"@,
        "img"@, "figure"@, "figcaption"@,
    ]
}

/// Inline `style` is allowed because colour carries meaning in these serials.
pub open spec fn chapter_generic_attributes() -> Seq<Seq<char>> {
    seq!["style"@]
}

/// Style properties that cannot carry a `url()`, `expression()` or
/// `behavior`, the vectors that would fetch or execute from a chapter.
pub open spec fn chapter_style_properties() -> Seq<Seq<char>> {
    seq![
        "color"@, "background-color"@, "font-weight"@, "font-style"@, "font-variant"@,
        "text-decoration"@, "text-align"@, "letter-spacing"@,
    ]
}

pub open spec fn chapter_img_attributes() -> Seq<Seq<char>> {
    seq!["src"@, "alt"@]
}

/// The sanitised form of a chapter's stored HTML. Links are reduced to
/// their text, since `a` is not an allowed tag.
pub open spec fn sanitized(html: Seq<char>) -> Seq<char> {
    ammonia_cleaned(
        chapter_tags(),
        chapter_generic_attributes(),
        chapter_style_properties(),
        "img"@,
        chapter_img_attributes(),
        html,
    )
}

/// Sanitise one chapter's stored HTML for display.
pub fn sanitize_chapter(html: &str) -> (out: String)
    ensures
        out@ == sanitized(html@),
{
    let tags: Vec<&str> = vec![
        "p", "br", "hr", "div", "span", "blockquote", "pre", "code",
        "em", "i", "strong", "b", "u", "s", "sub", "sup", "small",
        "h1", "h2", "h3", "h4", "h5", "h6",
        "ul", "ol", "li", "dl", "dt", "dd",
        "table", "thead", "tbody", "tr", "th", "td",
        "img", "figure", "figcaption",
    ];
    let generic: Vec<&str> = vec!["style"];
    let style: Vec<&str> = vec![
        "color", "background-color", "font-weight", "font-style", "font-variant",
        "text-decoration", "text-align", "letter-spacing",
    ];
    let img: Vec<&str> = vec!["src", "alt"];
    proof {
        assert(texts(tags@) =~= chapter_tags());
        assert(texts(generic@) =~= chapter_generic_attributes());
        assert(texts(style@) =~= chapter_style_properties());
        assert(texts(img@) =~= chapter_img_attributes());
        reveal_strlit("p");
        reveal_strlit("br");
        reveal_strlit("hr");
        reveal_strlit("div");
        reveal_strlit("span");
        reveal_strlit("blockquote");
        reveal_strlit("pre");
        reveal_strlit("code");
        reveal_strlit("em");
        reveal_strlit("i");
        reveal_strlit("strong");
        reveal_strlit("b");
        reveal_strlit("u");
        reveal_strlit("s");
        reveal_strlit("sub");
        reveal_strlit("sup");
        reveal_strlit("small");
        reveal_strlit("h1");
        reveal_strlit("h2");
        reveal_strlit("h3");
        reveal_strlit("h4");
        reveal_strlit("h5");
        reveal_strlit("h6");
        reveal_strlit("ul");
        reveal_strlit("ol");
        reveal_strlit("li");
        reveal_strlit("dl");
        reveal_strlit("dt");
        reveal_strlit("dd");
        reveal_strlit("table");
        reveal_strlit("thead");
        reveal_strlit("tbody");
        reveal_strlit("tr");
        reveal_strlit("th");
        reveal_strlit("td");
        reveal_strlit("img");
        reveal_strlit("figure");
        reveal_strlit("figcaption");
        reveal_strlit("script");
        reveal_strlit("style");
        assert("script"@.len() == 6);
        assert("style"@.len() == 5);
        assert(tags@.len() == 38);
        assert forall|i: int| 0 <= i < tags@.len() implies tags@[i]@ != "script"@ && tags@[i]@ != "style"@ by {
            if i == 0 {
                assert(tags@[i]@ == "p"@); assert("p"@.len() == 1); 
            } else if i == 1 {
                assert(tags@[i]@ == "br"@); assert("br"@.len() == 2); 
            } else if i == 2 {
                assert(tags@[i]@ == "hr"@); assert("hr"@.len() == 2); 
            } else if i == 3 {
                assert(tags@[i]@ == "div"@); assert("div"@.len() == 3); 
            } else if i == 4 {
                assert(tags@[i]@ == "span"@); assert("span"@.len() == 4); 
            } else if i == 5 {
                assert(tags@[i]@ == "blockquote"@); assert("blockquote"@.len() == 10); 
            } else if i == 6 {
                assert(tags@[i]@ == "pre"@); assert("pre"@.len() == 3); 
            } else if i == 7 {
                assert(tags@[i]@ == "code"@); assert("code"@.len() == 4); 
            } else if i == 8 {
                assert(tags@[i]@ == "em"@); assert("em"@.len() == 2); 
            } else if i == 9 {
                assert(tags@[i]@ == "i"@); assert("i"@.len() == 1); 
            } else if i == 10 {
                assert(tags@[i]@ == "strong"@); assert("strong"@.len() == 6); assert("strong"@[1] != "script"@[1]);
            } else if i == 11 {
                assert(tags@[i]@ == "b"@); assert("b"@.len() == 1); 
            } else if i == 12 {
                assert(tags@[i]@ == "u"@); assert("u"@.len() == 1); 
            } else if i == 13 {
                assert(tags@[i]@ == "s"@); assert("s"@.len() == 1); 
            } else if i == 14 {
                assert(tags@[i]@ == "sub"@); assert("sub"@.len() == 3); 
            } else if i == 15 {
                assert(tags@[i]@ == "sup"@); assert("sup"@.len() == 3); 
            } else if i == 16 {
                assert(tags@[i]@ == "small"@); assert("small"@.len() == 5); assert("small"@[1] != "style"@[1]);
            } else if i == 17 {
                assert(tags@[i]@ == "h1"@); assert("h1"@.len() == 2); 
            } else if i == 18 {
                assert(tags@[i]@ == "h2"@); assert("h2"@.len() == 2); 
            } else if i == 19 {
                assert(tags@[i]@ == "h3"@); assert("h3"@.len() == 2); 
            } else if i == 20 {
                assert(tags@[i]@ == "h4"@); assert("h4"@.len() == 2); 
            } else if i == 21 {
                assert(tags@[i]@ == "h5"@); assert("h5"@.len() == 2); 
            } else if i == 22 {
                assert(tags@[i]@ == "h6"@); assert("h6"@.len() == 2); 
            } else if i == 23 {
                assert(tags@[i]@ == "ul"@); assert("ul"@.len() == 2); 
            } else if i == 24 {
                assert(tags@[i]@ == "ol"@); assert("ol"@.len() == 2); 
            } else if i == 25 {
                assert(tags@[i]@ == "li"@); assert("li"@.len() == 2); 
            } else if i == 26 {
                assert(tags@[i]@ == "dl"@); assert("dl"@.len() == 2); 
            } else if i == 27 {
                assert(tags@[i]@ == "dt"@); assert("dt"@.len() == 2); 
            } else if i == 28 {
                assert(tags@[i]@ == "dd"@); assert("dd"@.len() == 2); 
            } else if i == 29 {
                assert(tags@[i]@ == "table"@); assert("table"@.len() == 5); assert("table"@[0] != "style"@[0]);
            } else if i == 30 {
                assert(tags@[i]@ == "thead"@); assert("thead"@.len() == 5); assert("thead"@[0] != "style"@[0]);
            } else if i == 31 {
                assert(tags@[i]@ == "tbody"@); assert("tbody"@.len() == 5); assert("tbody"@[0] != "style"@[0]);
            } else if i == 32 {
                assert(tags@[i]@ == "tr"@); assert("tr"@.len() == 2); 
            } else if i == 33 {
                assert(tags@[i]@ == "th"@); assert("th"@.len() == 2); 
            } else if i == 34 {
                assert(tags@[i]@ == "td"@); assert("td"@.len() == 2); 
            } else if i == 35 {
                assert(tags@[i]@ == "img"@); assert("img"@.len() == 3); 
            } else if i == 36 {
                assert(tags@[i]@ == "figure"@); assert("figure"@.len() == 6); assert("figure"@[0] != "script"@[0]);
            } else if i == 37 {
                assert(tags@[i]@ == "figcaption"@); assert("figcaption"@.len() == 10); 
            }
        }
    }
    ammonia_clean(&tags, &generic, &style, "img", &img, html)
}

} // verus!
