# gawkurl: watch for web page changes

Watching a web page for changes well means to ask neither too often nor too rarely, to send the
server its validators back, to outlive failures, and to share one fetch among all who are
interested. This library holds the decisions of that job, each with a contract that Verus proves.
The program around it performs the requests and sleeps.

- `src/watch.rs`: one page between two fetches: what to ask, what to make of the answer, when to ask
  again
- `src/freshness.rs`, `src/dates.rs`, `src/headers.rs`, `src/fields.rs`: the age and the lifetime of
  an answer, how long a server wants to be left alone, and the headers that they are read from
- `src/hash.rs`: the token by which a version of a page is known
- `src/pages.rs`: a server whose clients wait for a page to change
- `src/poll.rs`: a simpler one, which fetches every page once an hour, or less often if asked to
- `src/hub.rs`, `src/links.rs`, `src/intent.rs`, `src/urls.rs`: a server that has pages announced by
  their hubs
- `src/uris.rs`, `src/response.rs`, `src/text.rs`: request targets, responses and text
- `app/`: the program: listening, fetching, sleeping, and waking those who wait

What the library takes on trust is what the functions marked `external_body` say of the crates that
they call; each names the function and what is claimed of it. Functions named `law_` state what holds
of the library as a whole.

`trillium-http` is among the dependencies only to hold it, and with it `trillium`, to a release that
a stable compiler accepts.
