-- Buckets, and the files in them. The data of a file is a large object.

create table buckets (
    id uuid primary key default gen_random_uuid(),
    name text not null unique,
    -- How long before files are deleted, if the client doesn't specify it.
    default_ttl interval
);

create table files (
    id uuid primary key default gen_random_uuid(),
    bucket_id uuid not null references buckets (id),
    filename text not null,
    content_type text not null,
    created_at timestamptz not null default now(),
    updated_at timestamptz not null default now(),
    delete_after timestamptz,
    blob oid not null,
    unique (bucket_id, filename)
);

create index files_delete_after on files (delete_after);
