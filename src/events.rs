use vstd::prelude::*;

verus! {

/// How a file-system event counts for triggering.
#[derive(Clone, Copy, Debug, PartialEq, Eq, Structural)]
pub enum WatchEventType {
    /// A path's metadata changed without a change of content.
    Touched,
    /// A path's content or structure changed: created, written, removed or renamed.
    Changed,
    /// The notification mechanism reported a failure.
    Error,
    /// An event that is dropped on purpose: an advance notice, a rescan, an excluded path.
    Ignore,
}

/// A file-system event as the notification mechanism reports it. A path is given as text,
/// or as none where it is not valid Unicode; such a path matches no exclude pattern.
#[derive(Debug)]
pub enum RawEvent {
    /// Advance notice of a write.
    NoticeWrite(Option<String>),
    /// Advance notice of a removal or a rename.
    NoticeRemove(Option<String>),
    Create(Option<String>),
    Write(Option<String>),
    /// The attributes of a path changed.
    Chmod(Option<String>),
    Remove(Option<String>),
    /// A path was moved: from the first path to the second.
    Rename(Option<String>, Option<String>),
    /// The watched directories must be scanned again.
    Rescan,
    /// The mechanism failed, possibly for a given path.
    Error(Option<String>),
}

/// The text of a path, where it has one.
pub open spec fn path_text(p: Option<String>) -> Option<Seq<char>> {
    match p {
        Some(t) => Some(t@),
        None => None,
    }
}

/// How an event is classified before any exclusion.
pub open spec fn event_kind(e: RawEvent) -> WatchEventType {
    match e {
        RawEvent::Chmod(_) => WatchEventType::Touched,
        RawEvent::Create(_) | RawEvent::Write(_) | RawEvent::Remove(_) | RawEvent::Rename(
            _,
            _,
        ) => WatchEventType::Changed,
        RawEvent::NoticeWrite(_) | RawEvent::NoticeRemove(_) | RawEvent::Rescan => WatchEventType::Ignore,
        RawEvent::Error(_) => WatchEventType::Error,
    }
}

/// The text of the path an event is about, where it names one that has a text; for a
/// rename, the source.
pub open spec fn event_path(e: RawEvent) -> Option<Seq<char>> {
    match e {
        RawEvent::NoticeWrite(p) | RawEvent::NoticeRemove(p) | RawEvent::Create(p)
        | RawEvent::Write(p) | RawEvent::Chmod(p) | RawEvent::Remove(p) | RawEvent::Rename(
            p,
            _,
        ) => path_text(p),
        RawEvent::Rescan | RawEvent::Error(_) => None,
    }
}

/// Whether a signal of kind `kind` fires under the trigger method `method`: a change always
/// does, a touch only where the method is `Touched`, nothing else ever does.
pub open spec fn fires(kind: WatchEventType, method: WatchEventType) -> bool {
    kind == WatchEventType::Changed || (kind == WatchEventType::Touched && method
        == WatchEventType::Touched)
}

/// The text of the path that `evt` is about, if it names one that has a text.
pub fn get_file(evt: &RawEvent) -> (r: Option<&String>)
    ensures
        match r {
            Some(p) => event_path(*evt) == Some(p@),
            None => event_path(*evt) is None,
        },
{
    match evt {
        RawEvent::NoticeWrite(b)
        | RawEvent::NoticeRemove(b)
        | RawEvent::Create(b)
        | RawEvent::Write(b)
        | RawEvent::Chmod(b)
        | RawEvent::Remove(b)
        | RawEvent::Rename(b, _) => match b {
            Some(t) => Some(t),
            None => None,
        },
        RawEvent::Rescan | RawEvent::Error(_) => None,
    }
}

/// Classifies `evt`, before any exclusion.
pub fn classify(evt: &RawEvent) -> (r: WatchEventType)
    ensures
        r == event_kind(*evt),
{
    match evt {
        RawEvent::Chmod(_) => WatchEventType::Touched,
        RawEvent::Create(_) | RawEvent::Write(_) | RawEvent::Remove(_) | RawEvent::Rename(
            _,
            _,
        ) => WatchEventType::Changed,
        RawEvent::NoticeWrite(_) | RawEvent::NoticeRemove(_) | RawEvent::Rescan => WatchEventType::Ignore,
        RawEvent::Error(_) => WatchEventType::Error,
    }
}

/// Tells whether a signal of kind `kind` fires under the trigger method `method`.
pub fn is_fireable(kind: WatchEventType, method: WatchEventType) -> (r: bool)
    ensures
        r == fires(kind, method),
        kind == WatchEventType::Touched ==> (r <==> method == WatchEventType::Touched),
        kind == WatchEventType::Changed ==> r,
{
    match kind {
        WatchEventType::Changed => true,
        WatchEventType::Touched => match method {
            WatchEventType::Touched => true,
            _ => false,
        },
        _ => false,
    }
}

} // verus!
