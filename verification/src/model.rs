//! The records of the library database that the scanner reads: a library,
//! its series and their media files, each identified by an id and located
//! by a filesystem path.

use vstd::prelude::*;

verus! {

/// A media file (a book or a comic) of a series.
pub struct Media {
    pub id: String,
    pub path: String,
}

/// A series: a directory of media files inside a library. `media` is
/// `None` when the media relation was not loaded with the series.
pub struct Series {
    pub id: String,
    pub path: String,
    pub media: Option<Vec<Media>>,
}

/// A library: a root directory holding series. `series` is `None` when the
/// series relation was not loaded with the library.
pub struct Library {
    pub id: String,
    pub path: String,
    pub series: Option<Vec<Series>>,
}

/// Mathematical value of a [`Media`].
pub struct MediaView {
    pub id: Seq<char>,
    pub path: Seq<char>,
}

/// Mathematical value of a [`Series`].
pub struct SeriesView {
    pub id: Seq<char>,
    pub path: Seq<char>,
    pub media: Option<Seq<MediaView>>,
}

/// Mathematical value of a [`Library`].
pub struct LibraryView {
    pub id: Seq<char>,
    pub path: Seq<char>,
    pub series: Option<Seq<SeriesView>>,
}

/// The views of a sequence of media records.
pub open spec fn media_views(s: Seq<Media>) -> Seq<MediaView> {
    s.map_values(|m: Media| m@)
}

/// The views of a sequence of series records.
pub open spec fn series_views(s: Seq<Series>) -> Seq<SeriesView> {
    s.map_values(|x: Series| x@)
}

impl View for Media {
    type V = MediaView;

    open spec fn view(&self) -> MediaView {
        MediaView { id: self.id@, path: self.path@ }
    }
}

impl View for Series {
    type V = SeriesView;

    open spec fn view(&self) -> SeriesView {
        SeriesView {
            id: self.id@,
            path: self.path@,
            media: match self.media {
                Some(m) => Some(media_views(m@)),
                None => None,
            },
        }
    }
}

impl View for Library {
    type V = LibraryView;

    open spec fn view(&self) -> LibraryView {
        LibraryView {
            id: self.id@,
            path: self.path@,
            series: match self.series {
                Some(s) => Some(series_views(s@)),
                None => None,
            },
        }
    }
}

/// A copy of a list of media records.
fn clone_media_list(list: &Vec<Media>) -> (res: Vec<Media>)
    ensures
        media_views(res@) == media_views(list@),
{
    let mut res: Vec<Media> = Vec::new();
    let mut i: usize = 0;
    while i < list.len()
        invariant
            i <= list.len(),
            res@.len() == i,
            forall|k: int| 0 <= k < i ==> #[trigger] res@[k]@ == list@[k]@,
        decreases list.len() - i,
    {
        res.push(list[i].clone());
        i = i + 1;
    }
    assert(media_views(res@) =~= media_views(list@));
    res
}

impl Clone for Media {
    fn clone(&self) -> (res: Self)
        ensures
            res@ == self@,
    {
        Media { id: self.id.clone(), path: self.path.clone() }
    }
}

impl Clone for Series {
    fn clone(&self) -> (res: Self)
        ensures
            res@ == self@,
    {
        let media = match &self.media {
            Some(list) => Some(clone_media_list(list)),
            None => None,
        };
        Series { id: self.id.clone(), path: self.path.clone(), media }
    }
}

} // verus!
