use vstd::prelude::*;
use vstd::string::StringExecFns;

verus! {

/// The page up to the title, with a style sheet for readable text.
pub const PAGE_HEAD: &'static str = r#"<!DOCTYPE html>
<html>
<head>
<meta charset="utf-8">
<style> body { font-family: sans-serif; }
img { max-width: 100%; }
iframe { max-width: 100%; }
pre { white-space: pre-wrap;
word-wrap: break-word;
}
pre code { white-space: pre-wrap;
word-wrap: break-word;
}
pre code span { white-space: pre-wrap;
word-wrap: break-word;
}
} </style>
<title>"#;

/// Between the title and the content.
pub const PAGE_MID: &'static str = "</title>\n</head>\n<body>\n";

/// After the content.
pub const PAGE_TAIL: &'static str = "\n</body>\n</html>\n";

pub open spec fn page_text(title: Seq<char>, content: Seq<char>) -> Seq<char> {
    PAGE_HEAD@ + title + PAGE_MID@ + content + PAGE_TAIL@
}

/// An HTML page that shows `content` under the title `title`; both are put
/// in as they are.
pub fn render(title: &str, content: &str) -> (r: String)
    ensures
        r@ == page_text(title@, content@),
{
    let mut s = String::from_str(PAGE_HEAD);
    s.append(title);
    s.append(PAGE_MID);
    s.append(content);
    s.append(PAGE_TAIL);
    s
}

} // verus!
