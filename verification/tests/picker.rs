use interactor::error::PickError;
use interactor::listing::Child;
use interactor::picker::{
    handle_answer, handle_scan, show_listing, Answer, Event, Outcome, Picker, Request, Scan,
    State,
};
use interactor::listing::{build_listing, Listing};

fn dir(path: &str) -> Child {
    Child { path: Some(path.to_string()), is_dir: true }
}

fn file(path: &str) -> Child {
    Child { path: Some(path.to_string()), is_dir: false }
}

fn html() -> String {
    "html".to_string()
}

fn scanned(children: Vec<Child>) -> Event {
    Event::Scanned(Scan::Entries(children))
}

fn chosen(index: usize) -> Event {
    Event::Answered(Answer::Chosen(index))
}

const UP: &str = "▲ Parent Directory";

#[test]
fn picking_starts_by_asking_for_a_scan() {
    let picker = Picker::new("/site".to_string(), html());
    assert_eq!(picker.request(), Request::Scan("/site".to_string()));
    assert_eq!(picker.outcome(), None);
}

#[test]
fn a_scan_is_answered_by_showing_the_listing() {
    let picker = Picker::new("/site".to_string(), html());
    let picker = picker.advance(scanned(vec![
        dir("/site/A"),
        dir("/site/B"),
        file("/site/x.html"),
        file("/site/y.txt"),
    ]));
    assert_eq!(
        picker.request(),
        Request::Choose(vec![
            UP.to_string(),
            "/site/A".to_string(),
            "/site/B".to_string(),
            "/site/x.html".to_string(),
        ])
    );
    assert_eq!(picker.outcome(), None);
}

#[test]
fn selecting_a_file_returns_its_path_unchanged() {
    let picker = Picker::new("/site".to_string(), html());
    let picker = picker.advance(scanned(vec![dir("/site/A"), file("/site/x y.html")]));
    let picker = picker.advance(chosen(2));
    assert_eq!(picker.outcome(), Some(&Outcome::Selected("/site/x y.html".to_string())));
    assert_eq!(
        picker.request(),
        Request::Finish(Outcome::Selected("/site/x y.html".to_string()))
    );
}

#[test]
fn nothing_follows_a_selection() {
    let picker = Picker::new("/site".to_string(), html());
    let picker = picker.advance(scanned(vec![file("/site/a.html"), file("/site/b.html")]));
    let picker = picker.advance(chosen(1));
    let done = Outcome::Selected("/site/a.html".to_string());
    assert_eq!(picker.outcome(), Some(&done));
    let picker = picker.advance(chosen(2));
    assert_eq!(picker.outcome(), Some(&done));
    let picker = picker.advance(scanned(vec![file("/site/c.html")]));
    assert_eq!(picker.outcome(), Some(&done));
    let picker = picker.advance(Event::Answered(Answer::Failed));
    assert_eq!(picker.outcome(), Some(&done));
    let picker = picker.advance(Event::Scanned(Scan::Unreadable));
    assert_eq!(picker.request(), Request::Finish(done));
}

#[test]
fn selecting_a_directory_enters_it() {
    let picker = Picker::new("/site".to_string(), html());
    let picker = picker.advance(scanned(vec![dir("/site/sub"), file("/site/a.html")]));
    let picker = picker.advance(chosen(1));
    assert_eq!(picker.request(), Request::Scan("/site/sub".to_string()));
    assert_eq!(picker, Picker::new("/site/sub".to_string(), html()));
}

#[test]
fn going_up_is_the_same_as_starting_at_the_parent() {
    let picker = Picker::new("/home/user/site".to_string(), html());
    let picker = picker.advance(scanned(vec![file("/home/user/site/a.html")]));
    let up = picker.advance(chosen(0));
    let direct = Picker::new("/home/user".to_string(), html());
    assert_eq!(up, direct);
    assert_eq!(up.request(), Request::Scan("/home/user".to_string()));

    let children = vec![dir("/home/user/site"), file("/home/user/notes.html")];
    let up = up.advance(scanned(children.clone()));
    let direct = direct.advance(scanned(children));
    assert_eq!(up, direct);
    assert_eq!(up.request(), direct.request());
    assert_eq!(
        up.request(),
        Request::Choose(vec![
            UP.to_string(),
            "/home/user/site".to_string(),
            "/home/user/notes.html".to_string(),
        ])
    );
}

#[test]
fn picking_twice_shows_the_same_listing() {
    let children = vec![dir("/site/A"), file("/site/x.html"), file("/site/y.txt")];
    let first = Picker::new("/site".to_string(), html()).advance(scanned(children.clone()));
    let second = Picker::new("/site".to_string(), html()).advance(scanned(children));
    assert_eq!(first, second);
    assert_eq!(first.request(), second.request());
}

#[test]
fn an_empty_listing_fails_without_asking() {
    let picker = Picker::new("/".to_string(), html());
    let picker = picker.advance(scanned(Vec::new()));
    assert_eq!(picker.outcome(), Some(&Outcome::Failed(PickError::EmptySelection)));
    assert_eq!(picker.request(), Request::Finish(Outcome::Failed(PickError::EmptySelection)));
}

#[test]
fn a_listing_without_offers_fails_without_asking() {
    let picker = Picker::new("/".to_string(), html());
    let picker = picker.advance(scanned(vec![
        file("/notes.txt"),
        Child { path: None, is_dir: true },
    ]));
    assert_eq!(picker.outcome(), Some(&Outcome::Failed(PickError::EmptySelection)));
}

#[test]
fn descends_to_a_nested_file() {
    let picker = Picker::new("root".to_string(), html());
    assert_eq!(picker.request(), Request::Scan("root".to_string()));
    let picker = picker.advance(scanned(vec![file("root/a.html"), dir("root/sub")]));
    assert_eq!(
        picker.request(),
        Request::Choose(vec![UP.to_string(), "root/a.html".to_string(), "root/sub".to_string()])
    );
    let picker = picker.advance(chosen(2));
    assert_eq!(picker.request(), Request::Scan("root/sub".to_string()));
    let picker = picker.advance(scanned(vec![file("root/sub/b.html")]));
    assert_eq!(
        picker.request(),
        Request::Choose(vec![UP.to_string(), "root/sub/b.html".to_string()])
    );
    let picker = picker.advance(chosen(1));
    assert_eq!(
        picker.request(),
        Request::Finish(Outcome::Selected("root/sub/b.html".to_string()))
    );
}

#[test]
fn goes_down_and_up_again() {
    let picker = Picker::new("/root".to_string(), html());
    let picker = picker.advance(scanned(vec![dir("/root/sub")]));
    let picker = picker.advance(chosen(1));
    let picker = picker.advance(scanned(Vec::new()));
    assert_eq!(picker.request(), Request::Choose(vec![UP.to_string()]));
    let picker = picker.advance(chosen(0));
    assert_eq!(picker.request(), Request::Scan("/root".to_string()));
}

#[test]
fn an_unreadable_directory_fails_with_io() {
    let picker = Picker::new("/secret".to_string(), html());
    let picker = picker.advance(Event::Scanned(Scan::Unreadable));
    assert_eq!(picker.outcome(), Some(&Outcome::Failed(PickError::Io)));
    assert_eq!(picker.request(), Request::Finish(Outcome::Failed(PickError::Io)));
}

#[test]
fn a_path_that_is_no_directory_shows_only_the_way_up() {
    let picker = Picker::new("/site/a.html".to_string(), html());
    let picker = picker.advance(Event::Scanned(Scan::NotADirectory));
    assert_eq!(picker.request(), Request::Choose(vec![UP.to_string()]));
    let picker = picker.advance(chosen(0));
    assert_eq!(picker.request(), Request::Scan("/site".to_string()));

    let rootless = Picker::new("".to_string(), html());
    let rootless = rootless.advance(Event::Scanned(Scan::NotADirectory));
    assert_eq!(rootless.outcome(), Some(&Outcome::Failed(PickError::EmptySelection)));
}

#[test]
fn a_failed_prompt_fails_the_picking() {
    let picker = Picker::new("/site".to_string(), html());
    let picker = picker.advance(scanned(vec![file("/site/a.html")]));
    let picker = picker.advance(Event::Answered(Answer::Failed));
    assert_eq!(picker.outcome(), Some(&Outcome::Failed(PickError::Prompt)));
}

#[test]
fn a_cancelled_prompt_cancels_the_picking() {
    let picker = Picker::new("/site".to_string(), html());
    let picker = picker.advance(scanned(vec![file("/site/a.html")]));
    let picker = picker.advance(Event::Answered(Answer::Cancelled));
    assert_eq!(picker.outcome(), Some(&Outcome::Cancelled));
    assert_eq!(picker.request(), Request::Finish(Outcome::Cancelled));
}

#[test]
fn a_choice_beyond_the_listing_is_invalid() {
    let picker = Picker::new("/site".to_string(), html());
    let picker = picker.advance(scanned(vec![file("/site/a.html")]));
    let beyond = picker.advance(chosen(2));
    assert_eq!(beyond.outcome(), Some(&Outcome::Failed(PickError::InvalidSelection)));

    let picker = Picker::new("/site".to_string(), html());
    let picker = picker.advance(scanned(vec![file("/site/a.html")]));
    let far = picker.advance(chosen(usize::MAX));
    assert_eq!(far.outcome(), Some(&Outcome::Failed(PickError::InvalidSelection)));
}

#[test]
fn events_that_answer_nothing_are_ignored() {
    let picker = Picker::new("/site".to_string(), html());
    let picker = picker.advance(chosen(0));
    assert_eq!(picker, Picker::new("/site".to_string(), html()));
    let picker = picker.advance(Event::Answered(Answer::Failed));
    assert_eq!(picker.request(), Request::Scan("/site".to_string()));

    let shown = picker.advance(scanned(vec![file("/site/a.html")]));
    let labels = shown.request();
    let shown = shown.advance(scanned(vec![file("/site/b.html")]));
    assert_eq!(shown.request(), labels);
    let shown = shown.advance(Event::Scanned(Scan::Unreadable));
    assert_eq!(shown.request(), labels);
    assert_eq!(shown.outcome(), None);
}

#[test]
fn the_wanted_extension_is_kept_across_directories() {
    let picker = Picker::new("/site".to_string(), "css".to_string());
    let picker = picker.advance(scanned(vec![dir("/site/sub"), file("/site/a.html")]));
    assert_eq!(
        picker.request(),
        Request::Choose(vec![UP.to_string(), "/site/sub".to_string()])
    );
    let picker = picker.advance(chosen(1));
    let picker = picker.advance(scanned(vec![file("/site/sub/b.html"), file("/site/sub/c.css")]));
    assert_eq!(
        picker.request(),
        Request::Choose(vec![UP.to_string(), "/site/sub/c.css".to_string()])
    );
}

#[test]
fn scans_are_handled_by_their_kind() {
    let html = html();
    let listed = handle_scan("/site".to_string(), &Scan::Entries(vec![file("/site/a.html")]), &html);
    let expected = build_listing("/site", &vec![file("/site/a.html")], &html);
    assert_eq!(
        listed,
        State::Browsing { directory: "/site".to_string(), listing: expected }
    );
    assert_eq!(
        handle_scan("/site".to_string(), &Scan::Unreadable, &html),
        State::Done(Outcome::Failed(PickError::Io))
    );
    assert_eq!(
        handle_scan("/site".to_string(), &Scan::NotADirectory, &html),
        State::Browsing {
            directory: "/site".to_string(),
            listing: Listing::begin(Some("/".to_string())),
        }
    );
    assert_eq!(
        handle_scan("/".to_string(), &Scan::Entries(Vec::new()), &html),
        State::Done(Outcome::Failed(PickError::EmptySelection))
    );
}

#[test]
fn answers_are_resolved_against_the_listing() {
    let mut listing = Listing::begin(Some("/up".to_string()));
    listing.push_child("/up/here/sub".to_string(), true);
    listing.push_child("/up/here/a.html".to_string(), false);
    assert_eq!(
        handle_answer(&listing, Answer::Chosen(0)),
        State::Entering { directory: "/up".to_string() }
    );
    assert_eq!(
        handle_answer(&listing, Answer::Chosen(1)),
        State::Entering { directory: "/up/here/sub".to_string() }
    );
    assert_eq!(
        handle_answer(&listing, Answer::Chosen(2)),
        State::Done(Outcome::Selected("/up/here/a.html".to_string()))
    );
    assert_eq!(
        handle_answer(&listing, Answer::Chosen(3)),
        State::Done(Outcome::Failed(PickError::InvalidSelection))
    );
    assert_eq!(handle_answer(&listing, Answer::Cancelled), State::Done(Outcome::Cancelled));
    assert_eq!(
        handle_answer(&listing, Answer::Failed),
        State::Done(Outcome::Failed(PickError::Prompt))
    );
}

#[test]
fn an_empty_listing_is_never_shown() {
    assert_eq!(
        show_listing("/".to_string(), Listing::begin(None)),
        State::Done(Outcome::Failed(PickError::EmptySelection))
    );
    let listing = Listing::begin(Some("/".to_string()));
    assert_eq!(
        show_listing("/site".to_string(), listing.clone()),
        State::Browsing { directory: "/site".to_string(), listing }
    );
}

#[test]
fn a_recorded_run_is_replayed_event_by_event() {
    let events = vec![
        scanned(vec![file("root/a.html"), dir("root/sub")]),
        chosen(2),
        scanned(vec![file("root/sub/b.html")]),
        chosen(1),
    ];
    let replayed = Picker::new("root".to_string(), html()).replay(&events);
    assert_eq!(replayed.outcome(), Some(&Outcome::Selected("root/sub/b.html".to_string())));

    let mut stepped = Picker::new("root".to_string(), html());
    for event in &events {
        stepped = stepped.advance_by(event);
    }
    assert_eq!(stepped, replayed);

    let part = Picker::new("root".to_string(), html()).replay(&events[..2].to_vec());
    assert_eq!(part.request(), Request::Scan("root/sub".to_string()));
}

#[test]
fn replaying_nothing_changes_nothing() {
    let picker = Picker::new("/site".to_string(), html()).replay(&Vec::new());
    assert_eq!(picker, Picker::new("/site".to_string(), html()));
    assert_eq!(picker.request(), Request::Scan("/site".to_string()));
}

#[test]
fn a_run_ends_only_with_an_enumerated_file() {
    let events = vec![
        scanned(vec![dir("/site/docs"), file("/site/index.html"), file("/site/notes.txt")]),
        chosen(1),
        scanned(vec![file("/site/docs/guide.html")]),
        chosen(0),
        scanned(vec![dir("/site/docs"), file("/site/index.html"), file("/site/notes.txt")]),
        chosen(2),
        chosen(1),
    ];
    let picker = Picker::new("/site".to_string(), html()).replay(&events);
    assert_eq!(picker.outcome(), Some(&Outcome::Selected("/site/index.html".to_string())));
}

#[test]
fn pages_are_picked_by_the_html_extension() {
    assert_eq!(Picker::for_pages("/site".to_string()), Picker::new("/site".to_string(), html()));
    let picker = Picker::for_pages("/site".to_string());
    let picker = picker.advance(scanned(vec![
        file("/site/a.html"),
        file("/site/b.css"),
        file("/site/c.js"),
    ]));
    assert_eq!(
        picker.request(),
        Request::Choose(vec![UP.to_string(), "/site/a.html".to_string()])
    );
}
