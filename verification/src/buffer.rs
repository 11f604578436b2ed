//! Terminal output buffer: the text that the shell has printed so far.
//!
//! The buffer is shared between the thread that reads the shell's output and
//! the thread that draws it. Raw output goes in through
//! [`TerminalBuffer::write`], which filters it; a copy of the accumulated text
//! comes out of [`TerminalBuffer::content`].
//!
//! The filter and the text each sit behind a lock of their own. `write` holds
//! the filter's lock while it filters and the text's lock while it appends,
//! one after the other and never both, so the two locks cannot deadlock.
//! The text's lock carries the buffer's invariant: whatever is stored is made
//! of displayable characters only.

use crate::ansi::{is_text, AnsiFilter};
use std::sync::Arc;
use vstd::prelude::*;
use vstd::rwlock::{RwLock, RwLockPredicate};
use vstd::string::StringExecFns;

verus! {

/// What the text's lock admits: displayable characters only.
pub struct DisplayableText;

impl RwLockPredicate<String> for DisplayableText {
    open spec fn inv(self, v: String) -> bool {
        is_text(v@)
    }
}

/// What the filter's lock admits: a filter in any state.
pub struct AnyFilter;

impl RwLockPredicate<AnsiFilter> for AnyFilter {
    open spec fn inv(self, v: AnsiFilter) -> bool {
        true
    }
}

/// The lock around the accumulated text.
pub type ContentLock = RwLock<String, DisplayableText>;

/// The lock around the escape filter.
pub type FilterLock = RwLock<AnsiFilter, AnyFilter>;

/// `Arc::clone` of std: a second handle to the value that `handle` points to.
#[verifier::external_body]
fn share<T>(handle: &Arc<T>) -> (shared: Arc<T>)
    ensures
        shared == handle,
{
    Arc::clone(handle)
}

/// Terminal buffer that stores filtered text output.
///
/// Cloning a buffer gives a second handle to the same text and filter.
pub struct TerminalBuffer {
    content: Arc<ContentLock>,
    filter: Arc<FilterLock>,
}

impl TerminalBuffer {
    /// The lock that guards this buffer's text.
    pub closed spec fn content_lock(&self) -> ContentLock {
        *self.content
    }

    /// The lock that guards this buffer's filter.
    pub closed spec fn filter_lock(&self) -> FilterLock {
        *self.filter
    }

    /// An empty buffer with a filter in the `Normal` state.
    pub fn new() -> (buffer: Self) {
        Self {
            content: Arc::new(RwLock::new(String::new(), Ghost(DisplayableText))),
            filter: Arc::new(RwLock::new(AnsiFilter::new(), Ghost(AnyFilter))),
        }
    }

    /// Filters raw shell output and appends what is left to the text.
    ///
    /// The filter keeps its state from one call to the next, so an escape
    /// sequence may be split over two calls.
    pub fn write(&self, bytes: &[u8]) {
        let (mut filter, filter_handle) = self.filter.acquire_write();
        let text = filter.process_slice(bytes);
        filter_handle.release_write(filter);

        if !text.as_str().is_empty() {
            let (mut content, content_handle) = self.content.acquire_write();
            content.append(text.as_str());
            content_handle.release_write(content);
        }
    }

    /// A copy of the text accumulated so far.
    pub fn content(&self) -> (text: String)
        ensures
            is_text(text@),
    {
        let handle = self.content.acquire_read();
        let text = handle.borrow().clone();
        handle.release_read();
        text
    }

    /// Empties the text. The filter keeps its state.
    pub fn clear(&self) {
        let (_, handle) = self.content.acquire_write();
        handle.release_write(String::new());
    }

    /// A handle to the lock around the text, for shared access.
    pub fn content_arc(&self) -> (lock: Arc<ContentLock>)
        ensures
            *lock == self.content_lock(),
    {
        share(&self.content)
    }

    /// A handle to the lock around the filter, for shared access.
    pub fn filter_arc(&self) -> (lock: Arc<FilterLock>)
        ensures
            *lock == self.filter_lock(),
    {
        share(&self.filter)
    }
}

impl Clone for TerminalBuffer {
    /// A second handle to the same text and the same filter.
    fn clone(&self) -> (twin: Self)
        ensures
            twin.content_lock() == self.content_lock(),
            twin.filter_lock() == self.filter_lock(),
    {
        Self { content: share(&self.content), filter: share(&self.filter) }
    }
}

impl Default for TerminalBuffer {
    fn default() -> (buffer: Self) {
        Self::new()
    }
}

} // verus!
