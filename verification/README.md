# gurka

A service for writing Gherkin features: users sign up and log in, own
projects, and write features made of ordered steps. The crate is in two parts.

- `src/` is the library, verified with Verus:
  - `models::users`: the stored user and its PBKDF2-HMAC-SHA256 credential
    (derived at sign-up, checked at login), username normalisation, sessions.
  - `models::steps`: where a new step goes, how a step is moved within its
    feature (the changes to store and the feature's new listing), and the
    listing of a feature's steps in order of position, with the laws that a
    move keeps a feature numbered 1 to n.
  - `models::features`, `models::projects`: the other rows; finding a
    feature of a project by slug.
  - `graphql`: the API objects and the decisions of the resolvers (which
    lookup the `user` query makes, who owns a new project, what a login and a
    missing row are answered).
  - `context`: the token and user of a request.
  - `crypto`, `ids`, `text`: the calls into `ring`, `uuid`, `heck` and std's
    lower-casing, each with the contract it is trusted to meet.
- `app/` is the service around it: the Postgres schema and queries (diesel,
  r2d2), the GraphQL schema (juniper) and the HTTP server (rocket).
