//! Replays the client/server event protocol of a server-rendered WebDynpro
//! screen: the event escape codec, event descriptors and queues, the screen
//! bootstrap metadata, the request forms, and the navigation steps of the
//! course-grades screen.
pub mod codec;
pub mod event;
pub mod client;
pub mod session;
pub mod course_grades;
