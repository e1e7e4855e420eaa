use speedruns::mirror::{
    Advance, Crawl, Phase, Resource, PAGES_PER_SAVE, PAGE_SIZE, PAUSE_SECS, RETRY_SECS,
};

fn at(resource: Resource, phase: Phase, page: usize) -> Crawl {
    Crawl { resource, phase, page }
}

#[test]
fn the_crawl_starts_with_the_newest_games() {
    assert_eq!(Crawl::start(), at(Resource::Games, Phase::Newest, 0));
    assert_eq!(Resource::first(), Resource::Games);
}

#[test]
fn resources_follow_each_other() {
    assert_eq!(Resource::Games.next(), Some(Resource::Users));
    assert_eq!(Resource::Users.next(), Some(Resource::Runs));
    assert_eq!(Resource::Runs.next(), None);
}

#[test]
fn resources_have_their_upstream_names() {
    assert_eq!(Resource::Games.id(), "games");
    assert_eq!(Resource::Users.id(), "users");
    assert_eq!(Resource::Runs.id(), "runs");
    assert_eq!(Resource::Games.order(), "created");
    assert_eq!(Resource::Users.order(), "signup");
    assert_eq!(Resource::Runs.order(), "submitted");
    assert_eq!(
        Resource::Games.embed(),
        "levels,categories,variables,gametypes,platforms,regions,genres,engines,developers,publishers"
    );
    assert_eq!(Resource::Users.embed(), "");
    assert_eq!(Resource::Runs.embed(), "");
}

#[test]
fn resources_are_found_by_their_names() {
    assert_eq!(Resource::from_id("games"), Some(Resource::Games));
    assert_eq!(Resource::from_id("users"), Some(Resource::Users));
    assert_eq!(Resource::from_id("runs"), Some(Resource::Runs));
    assert_eq!(Resource::from_id("levels"), None);
    assert_eq!(Resource::from_id(""), None);
    assert_eq!(Resource::from_id("Games"), None);
}

#[test]
fn the_constants_are_those_of_the_upstream_protocol() {
    assert_eq!(PAGE_SIZE, 200);
    assert_eq!(PAGES_PER_SAVE, 256);
    assert_eq!(PAUSE_SECS, 4);
    assert_eq!(RETRY_SECS, 32);
}

#[test]
fn newest_pages_are_counted_from_the_start() {
    assert_eq!(at(Resource::Games, Phase::Newest, 0).offset(1234), Some(0));
    assert_eq!(at(Resource::Games, Phase::Newest, 1).offset(1234), Some(200));
    assert_eq!(at(Resource::Runs, Phase::Newest, 7).offset(0), Some(1400));
    assert_eq!(at(Resource::Runs, Phase::Newest, usize::MAX / 200).offset(0), Some(usize::MAX / 200 * 200));
    assert_eq!(at(Resource::Runs, Phase::Newest, usize::MAX / 200 + 1).offset(0), None);
    assert_eq!(at(Resource::Runs, Phase::Newest, usize::MAX).offset(0), None);
}

#[test]
fn oldest_pages_start_where_the_held_items_end() {
    assert_eq!(at(Resource::Games, Phase::Oldest, 0).offset(1234), Some(1234));
    assert_eq!(at(Resource::Games, Phase::Oldest, 9).offset(0), Some(0));
    assert_eq!(at(Resource::Users, Phase::Oldest, usize::MAX).offset(usize::MAX), Some(usize::MAX));
}

#[test]
fn a_newest_page_with_new_items_is_followed_by_the_next_after_a_pause() {
    assert_eq!(
        at(Resource::Users, Phase::Newest, 3).after_page(200, 1000, 1001),
        Advance { save: false, pause_secs: 4, next: Some(at(Resource::Users, Phase::Newest, 4)) }
    );
    // also where the page was not full
    assert_eq!(
        at(Resource::Users, Phase::Newest, 0).after_page(3, 0, 3),
        Advance { save: false, pause_secs: 4, next: Some(at(Resource::Users, Phase::Newest, 1)) }
    );
}

#[test]
fn a_newest_page_without_new_items_turns_the_crawl_at_once() {
    assert_eq!(
        at(Resource::Users, Phase::Newest, 3).after_page(200, 1000, 1000),
        Advance { save: false, pause_secs: 0, next: Some(at(Resource::Users, Phase::Oldest, 0)) }
    );
    assert_eq!(
        at(Resource::Runs, Phase::Newest, 0).after_page(0, 0, 0),
        Advance { save: false, pause_secs: 0, next: Some(at(Resource::Runs, Phase::Oldest, 0)) }
    );
}

#[test]
fn a_full_oldest_page_is_followed_by_the_next_and_saved_every_256th_time() {
    assert_eq!(
        at(Resource::Games, Phase::Oldest, 0).after_page(200, 0, 200),
        Advance { save: true, pause_secs: 4, next: Some(at(Resource::Games, Phase::Oldest, 1)) }
    );
    assert_eq!(
        at(Resource::Games, Phase::Oldest, 1).after_page(200, 200, 400),
        Advance { save: false, pause_secs: 4, next: Some(at(Resource::Games, Phase::Oldest, 2)) }
    );
    assert_eq!(
        at(Resource::Games, Phase::Oldest, 255).after_page(200, 1, 2),
        Advance { save: false, pause_secs: 4, next: Some(at(Resource::Games, Phase::Oldest, 256)) }
    );
    assert_eq!(
        at(Resource::Games, Phase::Oldest, 256).after_page(200, 1, 2),
        Advance { save: true, pause_secs: 4, next: Some(at(Resource::Games, Phase::Oldest, 257)) }
    );
    // a full page counts as full even where it brought nothing new
    assert_eq!(
        at(Resource::Games, Phase::Oldest, 2).after_page(200, 400, 400),
        Advance { save: false, pause_secs: 4, next: Some(at(Resource::Games, Phase::Oldest, 3)) }
    );
}

#[test]
fn a_short_oldest_page_ends_the_resource_which_is_saved() {
    assert_eq!(
        at(Resource::Games, Phase::Oldest, 5).after_page(199, 1000, 1199),
        Advance { save: true, pause_secs: 0, next: Some(at(Resource::Users, Phase::Newest, 0)) }
    );
    assert_eq!(
        at(Resource::Users, Phase::Oldest, 0).after_page(0, 0, 0),
        Advance { save: true, pause_secs: 0, next: Some(at(Resource::Runs, Phase::Newest, 0)) }
    );
}

#[test]
fn the_last_short_page_of_the_runs_completes_the_mirror() {
    assert_eq!(
        at(Resource::Runs, Phase::Oldest, 5).after_page(17, 1000, 1017),
        Advance { save: true, pause_secs: 0, next: None }
    );
}

#[test]
fn the_last_page_that_can_be_counted_ends_its_direction() {
    assert_eq!(
        at(Resource::Games, Phase::Newest, usize::MAX).after_page(200, 0, 200),
        Advance { save: false, pause_secs: 0, next: Some(at(Resource::Games, Phase::Oldest, 0)) }
    );
    assert_eq!(
        at(Resource::Runs, Phase::Oldest, usize::MAX).after_page(200, 0, 200),
        Advance { save: true, pause_secs: 0, next: None }
    );
}

#[test]
fn a_whole_crawl_visits_every_resource_in_both_directions() {
    let mut crawl = Crawl::start();
    let mut visited = vec![(crawl.resource, crawl.phase)];
    let mut saves = 0;
    loop {
        // every page is empty: nothing new, nothing older
        let advance = crawl.after_page(0, 10, 10);
        if advance.save {
            saves += 1;
        }
        match advance.next {
            Some(next) => {
                visited.push((next.resource, next.phase));
                crawl = next;
            }
            None => break,
        }
    }
    assert_eq!(
        visited,
        vec![
            (Resource::Games, Phase::Newest),
            (Resource::Games, Phase::Oldest),
            (Resource::Users, Phase::Newest),
            (Resource::Users, Phase::Oldest),
            (Resource::Runs, Phase::Newest),
            (Resource::Runs, Phase::Oldest),
        ]
    );
    assert_eq!(saves, 3);
}
