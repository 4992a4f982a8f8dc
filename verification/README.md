# price_crawler

Fetches the shelf prices of grocery articles from Swedish chains (Coop, ICA,
Willys), stores them in SQLite and renders a price comparison page.

- `src/` is the verified core (Verus): the unit-price reader, the request
  addresses and bodies, the reading of the stores' JSON answers, the choice of
  crawler for a store, the stored price texts and the placement of ranked
  prices into each article's store slots.
- `app/` is the program around it: HTTP, the database, templates, the async
  crawl loop, and Coop's float arithmetic.
- `tests/` runs the library on concrete values.
