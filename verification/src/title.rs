//! Page titles and the scripts that pages embed.

use vstd::prelude::*;

verus! {

/// The title of a page.
pub enum Title<'a> {
    /// The home page.
    Top,
    /// A page below the home page, by name.
    Child(&'a str),
    /// A blog post, by its title.
    Blog(&'a str),
}

/// The text of a page's title.
pub open spec fn title_text(title: Title) -> Seq<char> {
    match title {
        Title::Top => "Joe's Blog"@,
        Title::Child(name) => "Joe's Blog - "@ + name@,
        Title::Blog(name) => name@,
    }
}

/// The text of a page's title.
pub fn format_title(title: Title) -> (r: String)
    ensures
        r@ == title_text(title),
{
    match title {
        Title::Top => "Joe's Blog".to_owned(),
        Title::Child(name) => {
            let mut text = "Joe's Blog - ".to_owned();
            text.append(name);
            text
        },
        Title::Blog(name) => name.to_owned(),
    }
}

/// A script embedded in a page, by its source text.
pub struct Javascript(&'static str);

impl Javascript {
    /// The script with the given source.
    pub fn new(source: &'static str) -> (r: Javascript)
        ensures
            r.spec_source() == source@,
    {
        Javascript(source)
    }

    /// The source text of the script.
    pub closed spec fn spec_source(&self) -> Seq<char> {
        self.0@
    }

    /// The source text of the script.
    pub fn source(&self) -> (r: &'static str)
        ensures
            r@ == self.spec_source(),
    {
        self.0
    }
}

} // verus!
