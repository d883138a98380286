//! The renderer of one document: its title, its rendering context, and the
//! size left for content inside the page margins.
use vstd::prelude::*;

use crate::context::RenderContext;
use crate::font::Fonts;
use crate::geometry::{Quad, Size};

verus! {

pub struct Renderer {
    title: String,
    context: RenderContext,
    content_size: Size,
}

impl Renderer {
    pub closed spec fn wf(&self) -> bool {
        self.context.wf()
    }

    pub closed spec fn title_view(&self) -> Seq<char> {
        self.title@
    }

    pub closed spec fn context_view(&self) -> RenderContext {
        self.context
    }

    pub closed spec fn content_size_view(&self) -> Size {
        self.content_size
    }

    /// A renderer for pages of `page_size` with `page_margin`; content is laid
    /// out in the size left inside the margins.
    pub fn new(document_title: &str, page_margin: Quad, page_size: Size, fonts: Fonts) -> (r: Renderer)
        requires
            page_margin.wf(),
            page_size.wf(),
            fonts.wf(),
        ensures
            r.wf(),
            r.title_view() == document_title@,
            r.content_size_view().width == page_size.width - page_margin.left - page_margin.right,
            r.content_size_view().height == page_size.height - page_margin.top - page_margin.bottom,
            r.context_view().margin() == page_margin,
            r.context_view().size() == page_size,
            r.context_view().emitted().len() == 0,
            r.context_view().render_fonts().fonts() == fonts,
            r.context_view().render_fonts().names().len() == 0,
            !r.context_view().frames(),
            !r.context_view().page_breaks(),
    {
        let content_size = page_margin.narrow(&page_size);
        let context = RenderContext::new(page_margin, page_size, fonts);
        Renderer { title: document_title.to_owned(), context, content_size }
    }

    /// The same renderer, drawing debug frames or not.
    pub fn with_debug_frame(self, debug_frame: bool) -> (r: Renderer)
        ensures
            self.wf() ==> r.wf(),
            r.title_view() == self.title_view(),
            r.content_size_view() == self.content_size_view(),
            r.context_view().same_pages(self.context_view()),
            r.context_view().frames() == debug_frame,
            r.context_view().page_breaks() == self.context_view().page_breaks(),
    {
        let Renderer { title, context, content_size } = self;
        Renderer { title, context: context.with_debug_frame(debug_frame), content_size }
    }

    /// The same renderer, with page-break tracing on or off.
    pub fn with_debug_page_breaks(self, debug_page_breaks: bool) -> (r: Renderer)
        ensures
            self.wf() ==> r.wf(),
            r.title_view() == self.title_view(),
            r.content_size_view() == self.content_size_view(),
            r.context_view().same_pages(self.context_view()),
            r.context_view().frames() == self.context_view().frames(),
            r.context_view().page_breaks() == debug_page_breaks,
    {
        let Renderer { title, context, content_size } = self;
        Renderer { title, context: context.with_debug_page_breaks(debug_page_breaks), content_size }
    }

    /// The size left for content inside the margins.
    pub fn content_size(&self) -> (r: Size)
        ensures
            r == self.content_size_view(),
    {
        self.content_size
    }

    /// The title, the rendering context and the content size, for laying
    /// out and writing the document.
    pub fn into_parts(self) -> (r: (String, RenderContext, Size))
        ensures
            r.0@ == self.title_view(),
            r.1 == self.context_view(),
            r.2 == self.content_size_view(),
            self.wf() ==> r.1.wf(),
    {
        (self.title, self.context, self.content_size)
    }
}

} // verus!
