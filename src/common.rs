//! Small values shared between the engine's parts.
use vstd::prelude::*;

use std::sync::Arc;

verus! {

/// A width and a height.
#[derive(Clone, Copy, Debug)]
pub struct Size<T> {
    pub width: T,
    pub height: T,
}

impl<T> Size<T> {
    pub fn new(width: T, height: T) -> (r: Self)
        ensures
            r.width == width,
            r.height == height,
    {
        Size { width, height }
    }
}

impl<T> From<(T, T)> for Size<T> {
    fn from(value: (T, T)) -> (r: Self) {
        Size { width: value.0, height: value.1 }
    }
}

impl<T> vstd::std_specs::convert::FromSpecImpl<(T, T)> for Size<T> {
    open spec fn obeys_from_spec() -> bool {
        true
    }

    open spec fn from_spec(value: (T, T)) -> Self {
        Size { width: value.0, height: value.1 }
    }
}

/// A platform window that the engine draws into.
pub trait WindowHandle {
}

/// The application window together with its current size in pixels.
pub struct WindowRaw<W: ?Sized + WindowHandle = dyn WindowHandle> {
    window: Arc<W>,
    size: Size<u32>,
}

impl<W: ?Sized + WindowHandle> WindowRaw<W> {
    pub closed spec fn spec_size(&self) -> Size<u32> {
        self.size
    }

    pub closed spec fn spec_window(&self) -> Arc<W> {
        self.window
    }

    pub fn new(window: Arc<W>, size: Size<u32>) -> (r: Self)
        ensures
            r.spec_size() == size,
            r.spec_window() == window,
    {
        let r = WindowRaw { window: window, size: size };
        r
    }

    pub fn arc(&self) -> (r: &Arc<W>)
        ensures
            *r == self.spec_window(),
    {
        &self.window
    }

    pub fn size(&self) -> (r: Size<u32>)
        ensures
            r == self.spec_size(),
    {
        self.size
    }
}

} // verus!
