//! The shared state of the metadata upload service.

use vstd::prelude::*;

verus! {

/// The part of the service state that the movie routes use.
#[derive(Clone, Copy, Debug, PartialEq, Eq)]
pub struct MovieState {}

/// The state shared by every route of the service.
#[derive(Clone, Copy, Debug, PartialEq, Eq)]
pub struct AppState {
    pub movie_state: MovieState,
}

impl AppState {
    pub fn new() -> (s: AppState)
        ensures
            s.movie_state == (MovieState {}),
    {
        AppState { movie_state: MovieState {} }
    }
}

impl MovieState {
    /// The movie routes' part of the service state.
    pub fn from_ref(app_state: &AppState) -> (m: MovieState)
        ensures
            m == app_state.movie_state,
    {
        app_state.movie_state
    }
}

} // verus!
