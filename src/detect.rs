//! Change detection: whether a fresh record is news for a tracked work.
use vstd::prelude::*;
use crate::models::{clone_opt, CanonicalRecord, Manga, MangaView, RecordView};

verus! {

/// The detector's decision. `Changed` carries the state to persist.
pub enum Detection {
    NoChange,
    Changed(Manga),
}

pub enum DetectionView {
    NoChange,
    Changed(MangaView),
}

impl View for Detection {
    type V = DetectionView;

    open spec fn view(&self) -> DetectionView {
        match self {
            Detection::NoChange => DetectionView::NoChange,
            Detection::Changed(m) => DetectionView::Changed(m@),
        }
    }
}

/// Only a strictly greater installment number is news; title or image edits alone are not.
/// The new state takes the record's title, number, link and image, keeps the work's URL and
/// creation time, and is stamped `now`.
pub open spec fn detect_spec(persisted: MangaView, record: RecordView, now: int) -> DetectionView {
    if record.latest_chapter <= persisted.latest_chapter {
        DetectionView::NoChange
    } else {
        DetectionView::Changed(
            MangaView {
                title: record.title,
                url: persisted.url,
                latest_chapter: record.latest_chapter,
                latest_chapter_url: record.chapter_url,
                image_url: record.image_url,
                created_at: persisted.created_at,
                updated_at: now,
            },
        )
    }
}

/// Compares a freshly extracted record with the persisted state of the same work.
pub fn detect(persisted: &Manga, record: &CanonicalRecord, now: i64) -> (r: Detection)
    ensures
        r@ == detect_spec(persisted@, record@, now as int),
        persisted.wf() ==> (r matches Detection::Changed(m) ==> m.wf()),
{
    if record.latest_chapter <= persisted.latest_chapter {
        Detection::NoChange
    } else {
        Detection::Changed(
            Manga {
                title: record.title.clone(),
                url: persisted.url.clone(),
                latest_chapter: record.latest_chapter,
                latest_chapter_url: record.chapter_url.clone(),
                image_url: clone_opt(&record.image_url),
                created_at: persisted.created_at,
                updated_at: now,
            },
        )
    }
}

/// The detector reports no change exactly when the record's installment number is at most the
/// persisted one; otherwise the new state carries the record's number.
pub proof fn lemma_no_change_iff_not_newer(persisted: MangaView, record: RecordView, now: int)
    ensures
        (detect_spec(persisted, record, now) is NoChange) <==> record.latest_chapter
            <= persisted.latest_chapter,
        detect_spec(persisted, record, now) matches DetectionView::Changed(s) ==> s.latest_chapter
            == record.latest_chapter && s.url == persisted.url,
{
}

/// Feeding the same record twice against the same persisted state gives the same decision,
/// whenever each is made; the states to persist differ at most in their update time.
pub proof fn lemma_detect_repeatable(persisted: MangaView, record: RecordView, t1: int, t2: int)
    ensures
        (detect_spec(persisted, record, t1) is NoChange) == (detect_spec(
            persisted,
            record,
            t2,
        ) is NoChange),
        detect_spec(persisted, record, t1) matches DetectionView::Changed(s1) ==> (detect_spec(
            persisted,
            record,
            t2,
        ) matches DetectionView::Changed(s2) && s1 == (MangaView { updated_at: t1, ..s2 })),
{
}

/// Once a change is persisted, the same record is no longer news.
pub proof fn lemma_applied_change_is_settled(
    persisted: MangaView,
    record: RecordView,
    t1: int,
    t2: int,
)
    ensures
        detect_spec(persisted, record, t1) matches DetectionView::Changed(s) ==> detect_spec(
            s,
            record,
            t2,
        ) is NoChange,
{
}

} // verus!
