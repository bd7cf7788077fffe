//! Page assembly: the document under construction and the one-image-at-a-
//! time procedure that fills it.
//!
//! The caller reads each input file and hands its bytes to the
//! [`Assembler`], which decodes and fits the picture and appends a page.
//! An image that fails is reported and skipped; the pages of the others
//! keep the order of the inputs. Each attempt takes the assembler and
//! gives back the next one; in the end the assembler is turned into the
//! finished [`Document`], which the caller encodes and writes once.

use vstd::prelude::*;
use vstd::string::*;
use crate::codec::{
    format_named, picture_extent, render_page, rendering, Raster, RasterView,
};
use crate::error::{Cause, ImageDecodeError};
use crate::geometry::{
    keeps_aspect, page_length_of, page_size, spans, within, Dpi, Extent, PageSize,
};
use crate::inputs::texts;

verus! {

/// One page of the document: a picture that fills it, and the position of
/// the input that it came from.
pub struct Page {
    source: usize,
    raster: Raster,
}

/// What a [`Page`] stands for: the position of its input, and the
/// picture that fills it with the extent of that picture.
pub struct PageView {
    pub source: int,
    pub raster: RasterView,
}

impl View for Page {
    type V = PageView;

    closed spec fn view(&self) -> PageView {
        PageView { source: self.source as int, raster: self.raster@ }
    }
}

impl Page {
    /// The position, among the inputs, of the file that this page shows.
    pub fn source(&self) -> (source: usize)
        ensures
            source == self@.source,
    {
        self.source
    }

    /// The picture that fills this page.
    pub fn raster(&self) -> (raster: &Raster)
        ensures
            raster@ == self@.raster,
    {
        &self.raster
    }
}

/// The position of the input behind each page, in page order.
pub open spec fn sources(pages: Seq<PageView>) -> Seq<int> {
    pages.map_values(|p: PageView| p.source)
}

/// An ordered sequence of pages under a title, at one resolution. While
/// an [`Assembler`] holds it, it starts empty and changes only by a page
/// being appended; once handed out it does not change any more.
pub struct Document {
    title: String,
    dpi: Dpi,
    pages: Vec<Page>,
}

/// What a [`Document`] stands for: its title, the bit pattern of its
/// resolution, and its pages in order.
pub struct DocumentView {
    pub title: Seq<char>,
    pub dpi: u64,
    pub pages: Seq<PageView>,
}

impl View for Document {
    type V = DocumentView;

    closed spec fn view(&self) -> DocumentView {
        DocumentView {
            title: self.title@,
            dpi: self.dpi@,
            pages: self.pages@.map_values(|p: Page| p@),
        }
    }
}

impl Document {
    /// An empty document with the given title and resolution.
    pub(crate) fn new(title: String, dpi: Dpi) -> (document: Document)
        ensures
            document@.title == title@,
            document@.dpi == dpi@,
            document@.pages == Seq::<PageView>::empty(),
    {
        let document = Document { title, dpi, pages: Vec::new() };
        assert(document@.pages =~= Seq::<PageView>::empty());
        document
    }

    /// Appends a page that shows `raster`, the picture of input `source`.
    pub(crate) fn append(&mut self, source: usize, raster: Raster)
        ensures
            final(self)@.title == old(self)@.title,
            final(self)@.dpi == old(self)@.dpi,
            final(self)@.pages == old(self)@.pages.push(
                PageView { source: source as int, raster: raster@ },
            ),
    {
        let page = Page { source, raster };
        self.pages.push(page);
        assert(self@.pages =~= old(self)@.pages.push(page@));
    }

    /// The title of the document.
    pub fn title(&self) -> (title: &String)
        ensures
            title@ == self@.title,
    {
        &self.title
    }

    /// The resolution at which the pictures are placed on their pages.
    pub fn dpi(&self) -> (dpi: &Dpi)
        ensures
            dpi@ == self@.dpi,
    {
        &self.dpi
    }

    /// The number of pages.
    pub fn page_count(&self) -> (count: usize)
        ensures
            count == self@.pages.len(),
    {
        self.pages.len()
    }

    /// The page at position `index`, counted from zero.
    pub fn page(&self, index: usize) -> (page: &Page)
        requires
            index < self@.pages.len(),
        ensures
            page@ == self@.pages[index as int],
    {
        &self.pages[index]
    }

    /// The physical size of the page at position `index`: the extent of
    /// its picture at the resolution of the document, so that the picture
    /// fills the page exactly. In millimetres each side is its pixel count
    /// times 25.4, divided by the resolution.
    pub fn page_size(&self, index: usize) -> (size: PageSize)
        requires
            index < self@.pages.len(),
        ensures
            size.width@ == page_length_of(
                self@.pages[index as int].raster.extent.width,
                self@.dpi,
            ),
            size.height@ == page_length_of(
                self@.pages[index as int].raster.extent.height,
                self@.dpi,
            ),
            spans(size.width@, self@.pages[index as int].raster.extent.width as int, self@.dpi),
            spans(size.height@, self@.pages[index as int].raster.extent.height as int, self@.dpi),
    {
        let raster = self.pages[index].raster();
        page_size(raster.width(), raster.height(), &self.dpi)
    }
}

/// The positions of the inputs that gave a page, in ascending order.
/// `outcomes[i]` tells whether input `i` did.
pub open spec fn placed(outcomes: Seq<bool>) -> Seq<int>
    decreases outcomes.len(),
{
    if outcomes.len() == 0 {
        Seq::empty()
    } else {
        let before = placed(outcomes.drop_last());
        if outcomes.last() {
            before.push(outcomes.len() - 1)
        } else {
            before
        }
    }
}

/// The number of inputs that gave a page.
pub open spec fn successes(outcomes: Seq<bool>) -> nat
    decreases outcomes.len(),
{
    if outcomes.len() == 0 {
        0
    } else if outcomes.last() {
        successes(outcomes.drop_last()) + 1
    } else {
        successes(outcomes.drop_last())
    }
}

/// Where an attempt stands among the inputs: the position of the input
/// just attempted, counted from zero, and the number of inputs.
#[derive(Debug, Clone, Copy, PartialEq, Eq, Structural)]
pub struct Progress {
    pub index: usize,
    pub total: usize,
}

/// An input that was skipped: its position and what went wrong.
#[derive(Debug)]
pub struct Skip {
    pub index: usize,
    pub error: ImageDecodeError,
}

impl Skip {
    /// The text of the diagnostic for this skip.
    pub open spec fn message_text(&self) -> Seq<char> {
        "Skipping `"@ + self.error.path@ + "` because: "@ + self.error.detail@
    }

    /// Renders the diagnostic for this skip; it names the path and the
    /// cause.
    pub fn message(&self) -> (text: String)
        ensures
            text@ == self.message_text(),
    {
        let mut text = "Skipping `".to_owned();
        text.append(self.error.path.as_str());
        text.append("` because: ");
        text.append(self.error.detail.as_str());
        text
    }
}

/// The report of one attempt: how far the run has come, and the skip if
/// the input gave no page.
#[derive(Debug)]
pub struct Attempt {
    pub progress: Progress,
    pub skipped: Option<Skip>,
}

/// What the attempt on an input comes to, where the decoder delivers:
/// the extent of the page's picture, or why the input is skipped. `loaded`
/// is what reading the file at `path` gave. A file that could not be read
/// is skipped as unreadable; bytes that were read come to what
/// [`rendering`] gives.
pub open spec fn attempting(loaded: Result<Vec<u8>, String>, path: Seq<char>, frame: Extent)
    -> Result<Extent, Cause> {
    match loaded {
        Err(_) => Err(Cause::Unreadable),
        Ok(bytes) => rendering(path, bytes@, frame),
    }
}

/// Builds a document from a sequence of inputs, one attempt per input, in
/// input order.
pub struct Assembler {
    inputs: Vec<String>,
    frame: Extent,
    outcomes: Vec<bool>,
    document: Document,
}

/// What an [`Assembler`] stands for: the paths of its inputs, the scaling
/// frame, the outcome of each attempt made so far, and the document.
pub struct AssemblerView {
    pub inputs: Seq<Seq<char>>,
    pub frame: Extent,
    pub outcomes: Seq<bool>,
    pub document: DocumentView,
}

impl AssemblerView {
    /// The invariant of an assembly: no more attempts than inputs, and
    /// the pages are those of the inputs that succeeded, in input order.
    pub open spec fn consistent(self) -> bool {
        &&& self.outcomes.len() <= self.inputs.len()
        &&& sources(self.document.pages) == placed(self.outcomes)
    }

    /// Whether every input was attempted.
    pub open spec fn done(self) -> bool {
        self.outcomes.len() == self.inputs.len()
    }
}

impl View for Assembler {
    type V = AssemblerView;

    closed spec fn view(&self) -> AssemblerView {
        AssemblerView {
            inputs: texts(self.inputs@),
            frame: self.frame,
            outcomes: self.outcomes@,
            document: self.document@,
        }
    }
}

impl Assembler {
    /// The invariant of the type.
    #[verifier::type_invariant]
    spec fn consistent(self) -> bool {
        self@.consistent()
    }

    /// Starts the assembly of a document titled `title` from `inputs`,
    /// whose pictures are scaled into `frame` and placed at resolution
    /// `dpi`.
    pub fn new(inputs: Vec<String>, frame: Extent, dpi: Dpi, title: String) -> (assembler:
        Assembler)
        ensures
            assembler@.consistent(),
            assembler@.inputs == texts(inputs@),
            assembler@.frame == frame,
            assembler@.outcomes == Seq::<bool>::empty(),
            assembler@.document.title == title@,
            assembler@.document.dpi == dpi@,
            assembler@.document.pages == Seq::<PageView>::empty(),
    {
        let outcomes: Vec<bool> = Vec::new();
        let document = Document::new(title, dpi);
        assert(sources(document@.pages) =~= placed(outcomes@));
        Assembler { inputs, frame, outcomes, document }
    }

    /// The number of inputs.
    pub fn total(&self) -> (total: usize)
        ensures
            total == self@.inputs.len(),
    {
        self.inputs.len()
    }

    /// The number of inputs attempted so far.
    pub fn attempted(&self) -> (attempted: usize)
        ensures
            attempted == self@.outcomes.len(),
    {
        self.outcomes.len()
    }

    /// Whether every input was attempted.
    pub fn is_done(&self) -> (done: bool)
        ensures
            done == self@.done(),
    {
        proof {
            use_type_invariant(self);
        }
        self.outcomes.len() >= self.inputs.len()
    }

    /// The path of the input that the next attempt is about, if any is
    /// left.
    pub fn next_path(&self) -> (path: Option<&String>)
        ensures
            self@.done() <==> path is None,
            path matches Some(p) ==> p@ == self@.inputs[self@.outcomes.len() as int],
    {
        proof {
            use_type_invariant(self);
        }
        if self.outcomes.len() < self.inputs.len() {
            Some(&self.inputs[self.outcomes.len()])
        } else {
            None
        }
    }

    /// Records the outcome of the attempt on the next input: appends a
    /// page that holds the raster handed in, or reports a skip for the
    /// error handed in. Either way the attempt counts and progress is
    /// reported.
    pub fn record(self, outcome: Result<Raster, ImageDecodeError>) -> (next: (Assembler, Attempt))
        requires
            !self@.done(),
        ensures
            next.0@.consistent(),
            next.0@.inputs == self@.inputs,
            next.0@.frame == self@.frame,
            next.0@.document.title == self@.document.title,
            next.0@.document.dpi == self@.document.dpi,
            next.0@.outcomes == self@.outcomes.push(outcome is Ok),
            next.1.progress.index == self@.outcomes.len(),
            next.1.progress.total == self@.inputs.len(),
            match outcome {
                Ok(raster) => {
                    &&& next.1.skipped is None
                    &&& next.0@.document.pages == self@.document.pages.push(
                        PageView { source: self@.outcomes.len() as int, raster: raster@ },
                    )
                },
                Err(error) => {
                    &&& next.1.skipped matches Some(skip)
                    &&& skip.index == self@.outcomes.len()
                    &&& skip.error == error
                    &&& next.0@.document.pages == self@.document.pages
                },
            },
    {
        proof {
            use_type_invariant(&self);
        }
        let ghost before = self@;
        let Assembler { inputs, frame, mut outcomes, mut document } = self;
        let index = outcomes.len();
        let progress = Progress { index, total: inputs.len() };
        let skipped = match outcome {
            Ok(raster) => {
                document.append(index, raster);
                outcomes.push(true);
                proof {
                    assert(sources(document@.pages) =~= sources(before.document.pages).push(
                        index as int,
                    ));
                }
                None
            },
            Err(error) => {
                outcomes.push(false);
                Some(Skip { index, error })
            },
        };
        proof {
            assert(outcomes@.drop_last() =~= before.outcomes);
        }
        (Assembler { inputs, frame, outcomes, document }, Attempt { progress, skipped })
    }

    /// Attempts the next input. `loaded` is what reading its file gave:
    /// the bytes, or the text of the read error.
    ///
    /// Bytes are decoded and the picture fitted into the frame; on success
    /// a page is appended. A file that could not be read, bytes that do
    /// not decode and a picture that cannot be resized are skipped with a
    /// report that names the path.
    ///
    /// The outcome is the one that [`attempting`] gives, with one
    /// exception: a decoder that fails on bytes that do hold a picture,
    /// because the machine denied it a thread or a buffer, gives a skip
    /// for malformed bytes. So a page that is appended shows the fitted
    /// picture of this input, within the frame and with the aspect ratio
    /// kept; a skip for any other cause comes on exactly the inputs that
    /// call for it; and no page is appended where none is due, nor
    /// together with a skip.
    pub fn attempt(self, loaded: Result<Vec<u8>, String>) -> (next: (Assembler, Attempt))
        requires
            !self@.done(),
        ensures
            next.0@.consistent(),
            next.0@.inputs == self@.inputs,
            next.0@.frame == self@.frame,
            next.0@.document.title == self@.document.title,
            next.0@.document.dpi == self@.document.dpi,
            next.0@.outcomes == self@.outcomes.push(next.1.skipped is None),
            next.1.progress.index == self@.outcomes.len(),
            next.1.progress.total == self@.inputs.len(),
            attempting(loaded, self@.inputs[self@.outcomes.len() as int], self@.frame) is Err
                ==> next.1.skipped is Some,
            match next.1.skipped {
                None => {
                    &&& next.0@.document.pages.len() == self@.document.pages.len() + 1
                    &&& next.0@.document.pages.drop_last() == self@.document.pages
                    &&& next.0@.document.pages.last().source == self@.outcomes.len()
                    &&& attempting(
                        loaded,
                        self@.inputs[self@.outcomes.len() as int],
                        self@.frame,
                    ) == Ok::<Extent, Cause>(next.0@.document.pages.last().raster.extent)
                    &&& within(next.0@.document.pages.last().raster.extent, self@.frame)
                    &&& loaded matches Ok(bytes) && picture_extent(
                        self@.inputs[self@.outcomes.len() as int],
                        bytes@,
                    ) matches Some(source) && keeps_aspect(
                        Extent { width: source.0, height: source.1 },
                        next.0@.document.pages.last().raster.extent,
                    )
                },
                Some(skip) => {
                    &&& next.0@.document.pages == self@.document.pages
                    &&& skip.index == self@.outcomes.len()
                    &&& skip.error.path@ == self@.inputs[self@.outcomes.len() as int]
                    &&& skip.error.cause == Cause::Unreadable <==> loaded is Err
                    &&& attempting(
                        loaded,
                        self@.inputs[self@.outcomes.len() as int],
                        self@.frame,
                    ) == Err::<Extent, Cause>(skip.error.cause) || (skip.error.cause
                        == Cause::Malformed && loaded is Ok && format_named(
                        self@.inputs[self@.outcomes.len() as int],
                    ) is Some)
                    &&& loaded matches Err(text) ==> skip.error.detail@ == text@
                },
            },
    {
        proof {
            use_type_invariant(&self);
        }
        let index = self.outcomes.len();
        let outcome = match loaded {
            Err(text) => Err(
                ImageDecodeError {
                    path: self.inputs[index].clone(),
                    cause: Cause::Unreadable,
                    detail: text,
                },
            ),
            Ok(bytes) => render_page(self.inputs[index].as_str(), bytes.as_slice(), self.frame),
        };
        let next = self.record(outcome);
        proof {
            if outcome is Ok {
                assert(next.0@.document.pages.drop_last() =~= self@.document.pages);
            }
        }
        next
    }

    /// Ends the assembly and hands out the document, which holds the
    /// pages of the inputs that succeeded, in input order. The assembler
    /// is used up: nothing can be appended to a finished document.
    pub fn finish(self) -> (document: Document)
        ensures
            document@ == self@.document,
            sources(document@.pages) == placed(self@.outcomes),
            document@.pages.len() == successes(self@.outcomes),
    {
        proof {
            use_type_invariant(&self);
            placed_counts_successes(self@.outcomes);
            assert(sources(self@.document.pages).len() == self@.document.pages.len());
        }
        self.document
    }
}

/// There are as many placed inputs as successes.
pub proof fn placed_counts_successes(outcomes: Seq<bool>)
    ensures
        placed(outcomes).len() == successes(outcomes),
    decreases outcomes.len(),
{
    if outcomes.len() > 0 {
        placed_counts_successes(outcomes.drop_last());
    }
}

/// The placed inputs are positions of successful attempts, in strictly
/// ascending order, and none is missing.
pub proof fn placed_is_ascending_and_complete(outcomes: Seq<bool>)
    ensures
        forall|k: int|
            0 <= k < placed(outcomes).len() ==> 0 <= #[trigger] placed(outcomes)[k]
                < outcomes.len() && outcomes[placed(outcomes)[k]],
        forall|j: int, k: int|
            0 <= j < k < placed(outcomes).len() ==> placed(outcomes)[j] < placed(outcomes)[k],
        forall|i: int|
            0 <= i < outcomes.len() && outcomes[i] ==> placed(outcomes).contains(i),
    decreases outcomes.len(),
{
    if outcomes.len() > 0 {
        let init = outcomes.drop_last();
        placed_is_ascending_and_complete(init);
        assert forall|k: int| 0 <= k < placed(outcomes).len() implies 0 <= #[trigger] placed(
            outcomes,
        )[k] < outcomes.len() && outcomes[placed(outcomes)[k]] by {
            if k < placed(init).len() {
                assert(placed(outcomes)[k] == placed(init)[k]);
                assert(init[placed(init)[k]] == outcomes[placed(init)[k]]);
            }
        }
        assert forall|i: int| 0 <= i < outcomes.len() && outcomes[i] implies placed(
            outcomes,
        ).contains(i) by {
            if i < init.len() {
                assert(init[i]);
                let k = choose|k: int| 0 <= k < placed(init).len() && placed(init)[k] == i;
                assert(placed(outcomes)[k] == i);
            } else {
                assert(placed(outcomes)[placed(init).len() as int] == i);
            }
        }
    }
}

/// The document follows the inputs: it has exactly as many pages as
/// inputs succeeded, every page shows an input that succeeded, every
/// input that succeeded has its page, and the pages stand in the order of
/// their inputs.
pub proof fn pages_follow_inputs(assembly: AssemblerView)
    requires
        assembly.consistent(),
    ensures
        assembly.document.pages.len() == successes(assembly.outcomes),
        forall|k: int|
            0 <= k < assembly.document.pages.len() ==> 0 <= (
            #[trigger] assembly.document.pages[k]).source < assembly.outcomes.len()
                && assembly.outcomes[assembly.document.pages[k].source],
        forall|j: int, k: int|
            0 <= j < k < assembly.document.pages.len() ==> assembly.document.pages[j].source
                < assembly.document.pages[k].source,
        forall|i: int|
            0 <= i < assembly.outcomes.len() && assembly.outcomes[i] ==> exists|k: int|
                0 <= k < assembly.document.pages.len() && assembly.document.pages[k].source == i,
{
    let pages = assembly.document.pages;
    placed_counts_successes(assembly.outcomes);
    placed_is_ascending_and_complete(assembly.outcomes);
    assert(sources(pages).len() == pages.len());
    assert forall|k: int| 0 <= k < pages.len() implies (#[trigger] pages[k]).source == placed(
        assembly.outcomes,
    )[k] by {
        assert(sources(pages)[k] == pages[k].source);
    }
    assert forall|i: int| 0 <= i < assembly.outcomes.len() && assembly.outcomes[i] implies exists|
        k: int,
    |
        0 <= k < pages.len() && pages[k].source == i by {
        let k = choose|k: int|
            0 <= k < placed(assembly.outcomes).len() && placed(assembly.outcomes)[k] == i;
        assert(pages[k].source == i);
    }
}

/// Without a single success the document stays empty: a run in which no
/// input gave a page, or which had no input at all, ends with zero pages.
pub proof fn no_success_no_page(assembly: AssemblerView)
    requires
        assembly.consistent(),
        forall|i: int| 0 <= i < assembly.outcomes.len() ==> !assembly.outcomes[i],
    ensures
        assembly.document.pages == Seq::<PageView>::empty(),
{
    pages_follow_inputs(assembly);
    if assembly.document.pages.len() > 0 {
        assert(assembly.outcomes[assembly.document.pages[0].source]);
    }
    assert(assembly.document.pages =~= Seq::<PageView>::empty());
}

} // verus!
