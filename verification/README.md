# blog

The bookkeeping of a small blog that runs as a Cloudflare worker, written in
Verus with its behaviour stated in contracts and proved.

`src/` is the verified library:

- `date` — calendar dates (the years `chrono` covers), built, read and
  written through `chrono`;
- `key` — storage keys `ASCD_YYYY-MM-DD_title`, with the proofs that keys
  list later posts first, for every year a date can hold, and that a key
  names one post;
- `route` — post routes and links, the key a route leads to, pagination;
- `title`, `auth`, `cors` — page titles, the post key check, allowed origins;
- `yaml`, `metadata`, `post_body`, `request` — front matter as plain YAML
  values, post metadata, request bodies, and what a create or update request
  is answered;
- `change`, `content` — the steps of a request that rewrites or removes a
  post, and of one that shows a post's page, from what storage answered to
  what to do next;
- `models`, `post_info` — posts as the database and the bucket keep them;
- `static_post` — the static page of a post file (its path, its HTML, its
  metadata) and the generated table of all posts.

`app/` is the worker around it: routing (axum), storage (D1 and R2 through
`worker`), HTML (maud) and JSON (serde), and the file reading and writing
of the static pages' generation.
